# lmtranslater

A local translation front end. `src/` is the verified library: extraction of
the model's answer from its raw output, voice selection for speech, the
interface-text catalog, the application's state machine and its bounded log,
and the choice and order of interface fonts. `app/` holds the window, the
background workers, the Python inference engine, audio, and file I/O.

Interface fonts are listed in `fonts.yaml`, in the order in which they are
tried, as a sequence of entries with a `name` and a `path`:

```yaml
- name: latin
  path: fonts/NotoSans-VariableFont_wdth,wght.ttf
- name: jp
  path: fonts/NotoSansJP-VariableFont_wght.ttf
```

Without the file, or with an empty list, the four built-in Noto fonts are
used.
