//! Which font files the interface loads and in what order its font
//! families try them.

use vstd::prelude::*;
use crate::labels::string_views;

verus! {

/// Font files below this size are taken as broken and skipped.
pub const MIN_FONT_FILE_BYTES: usize = 100_000;

/// A font to load: its name in the font table and the path of its file.
#[derive(Debug, Clone)]
pub struct FontSource {
    pub name: String,
    pub path: String,
}

/// `r` lists the built-in fonts, in order: Latin, Japanese, simplified
/// Chinese and Korean.
pub open spec fn is_builtin_font_list(r: Seq<FontSource>) -> bool {
    &&& r.len() == 4
    &&& r[0].name@ == "latin"@ && r[0].path@ == "fonts/NotoSans-VariableFont_wdth,wght.ttf"@
    &&& r[1].name@ == "jp"@ && r[1].path@ == "fonts/NotoSansJP-VariableFont_wght.ttf"@
    &&& r[2].name@ == "sc"@ && r[2].path@ == "fonts/NotoSansSC-Regular.otf"@
    &&& r[3].name@ == "kr"@ && r[3].path@ == "fonts/NotoSansKR-Regular.otf"@
}

/// The built-in fonts, used when the font settings name none.
pub fn font_sources() -> (r: Vec<FontSource>)
    ensures
        is_builtin_font_list(r@),
{
    let mut r: Vec<FontSource> = Vec::new();
    r.push(
        FontSource {
            name: "latin".to_owned(),
            path: "fonts/NotoSans-VariableFont_wdth,wght.ttf".to_owned(),
        },
    );
    r.push(
        FontSource { name: "jp".to_owned(), path: "fonts/NotoSansJP-VariableFont_wght.ttf".to_owned() },
    );
    r.push(FontSource { name: "sc".to_owned(), path: "fonts/NotoSansSC-Regular.otf".to_owned() });
    r.push(FontSource { name: "kr".to_owned(), path: "fonts/NotoSansKR-Regular.otf".to_owned() });
    r
}

/// The fonts that the interface loads: those that the font settings
/// (`fonts.yaml`) name, in their order, or the built-in ones when the
/// settings name none.
pub fn choose_font_sources(configured: Vec<FontSource>) -> (r: Vec<FontSource>)
    ensures
        configured@.len() > 0 ==> r@ == configured@,
        configured@.len() == 0 ==> is_builtin_font_list(r@),
{
    if configured.len() > 0 {
        configured
    } else {
        font_sources()
    }
}

/// Whether a font file of `len` bytes is used: it must be larger than
/// `MIN_FONT_FILE_BYTES`.
pub fn accept_font_file(len: usize) -> (r: bool)
    ensures
        r == (len > MIN_FONT_FILE_BYTES),
{
    len > MIN_FONT_FILE_BYTES
}

/// A font file of this size (`None`: not readable) is installed.
pub open spec fn is_usable_size(size: Option<usize>) -> bool {
    match size {
        Some(n) => n > MIN_FONT_FILE_BYTES,
        None => false,
    }
}

/// The names of the fonts of `sources` whose files were read (`sizes[i]`
/// is the size of the file of `sources[i]`, `None` when it could not be
/// read) and are large enough, in the order of `sources`.
pub open spec fn usable_font_names(sources: Seq<FontSource>, sizes: Seq<Option<usize>>) -> Seq<
    Seq<char>,
>
    decreases sources.len(),
{
    if sources.len() == 0 || sizes.len() == 0 {
        Seq::empty()
    } else {
        let rest = usable_font_names(sources.drop_last(), sizes.take(sizes.len() - 1));
        if is_usable_size(sizes[sources.len() - 1]) {
            rest.push(sources.last().name@)
        } else {
            rest
        }
    }
}

/// When every font file was read and is large enough, the fonts
/// installed are exactly the listed ones, in their order.
pub proof fn lemma_all_fonts_usable(sources: Seq<FontSource>, sizes: Seq<Option<usize>>)
    requires
        sizes.len() == sources.len(),
        forall|i: int| 0 <= i < sizes.len() ==> is_usable_size(#[trigger] sizes[i]),
    ensures
        usable_font_names(sources, sizes) == Seq::new(sources.len(), |i: int| sources[i].name@),
    decreases sources.len(),
{
    if sources.len() > 0 {
        let rest_sizes = sizes.take(sizes.len() - 1);
        assert forall|i: int| 0 <= i < rest_sizes.len() implies is_usable_size(
            #[trigger] rest_sizes[i],
        ) by {
            assert(rest_sizes[i] == sizes[i]);
        }
        lemma_all_fonts_usable(sources.drop_last(), rest_sizes);
        assert(is_usable_size(sizes[sources.len() - 1]));
        assert(usable_font_names(sources, sizes) =~= Seq::new(
            sources.len(),
            |i: int| sources[i].name@,
        ));
    } else {
        assert(usable_font_names(sources, sizes) =~= Seq::new(
            sources.len(),
            |i: int| sources[i].name@,
        ));
    }
}

/// The names of the fonts to install, given the size of each font's file
/// or `None` where it could not be read: the readable, large enough ones,
/// in the order of `sources`.
pub fn usable_fonts(sources: &Vec<FontSource>, sizes: &Vec<Option<usize>>) -> (r: Vec<String>)
    requires
        sizes.len() == sources.len(),
    ensures
        string_views(r@) == usable_font_names(sources@, sizes@),
{
    let mut r: Vec<String> = Vec::new();
    let mut i: usize = 0;
    while i < sources.len()
        invariant
            sizes.len() == sources.len(),
            i <= sources.len(),
            string_views(r@) == usable_font_names(sources@.take(i as int), sizes@.take(i as int)),
        decreases sources.len() - i,
    {
        let ghost before = string_views(r@);
        assert(sources@.take(i + 1).drop_last() =~= sources@.take(i as int));
        assert(sizes@.take(i + 1).take(i as int) =~= sizes@.take(i as int));
        let accept = match sizes[i] {
            Some(n) => accept_font_file(n),
            None => false,
        };
        if accept {
            r.push(sources[i].name.clone());
            assert(string_views(r@) =~= before.push(sources@[i as int].name@));
        }
        i = i + 1;
    }
    assert(sources@.take(i as int) =~= sources@);
    assert(sizes@.take(i as int) =~= sizes@);
    r
}

/// A family's fonts after the loaded ones are put in front: each loaded
/// font, from the last to the first, is inserted at the head, so that the
/// loaded fonts come first, in their loading order, before the family's
/// own.
pub fn font_family_order(loaded: &Vec<String>, existing: Vec<String>) -> (r: Vec<String>)
    ensures
        string_views(r@) == string_views(loaded@) + string_views(existing@),
{
    let mut r = existing;
    let ghost tail = string_views(r@);
    let mut k: usize = loaded.len();
    while k > 0
        invariant
            k <= loaded.len(),
            string_views(r@) == string_views(loaded@).subrange(k as int, loaded@.len() as int)
                + tail,
        decreases k,
    {
        k = k - 1;
        let name = loaded[k].clone();
        let ghost before = string_views(r@);
        r.insert(0, name);
        assert(string_views(r@) =~= seq![name@] + before);
        assert(string_views(loaded@).subrange(k as int, loaded@.len() as int) =~= seq![name@]
            + string_views(loaded@).subrange(k + 1, loaded@.len() as int));
    }
    assert(string_views(loaded@).subrange(0, loaded@.len() as int) =~= string_views(loaded@));
    r
}

/// Whether a file of this size (`None`: unreadable) is larger than
/// `MIN_FONT_FILE_BYTES`.
pub open spec fn larger_than_minimum(size: Option<usize>) -> bool {
    size matches Some(n) && n > MIN_FONT_FILE_BYTES
}

/// How many of `sizes` are of files read and larger than
/// `MIN_FONT_FILE_BYTES`.
pub open spec fn count_large(sizes: Seq<Option<usize>>) -> nat
    decreases sizes.len(),
{
    if sizes.len() == 0 {
        0
    } else {
        count_large(sizes.drop_last()) + if larger_than_minimum(sizes.last()) {
            1nat
        } else {
            0nat
        }
    }
}

/// The files before position `i` count no more than the whole list, less
/// the file at `i` when it is counted.
proof fn lemma_count_prefix(sizes: Seq<Option<usize>>, i: int)
    requires
        0 <= i < sizes.len(),
    ensures
        count_large(sizes.take(i)) + (if larger_than_minimum(sizes[i]) {
            1int
        } else {
            0int
        }) <= count_large(sizes),
    decreases sizes.len(),
{
    if i == sizes.len() - 1 {
        assert(sizes.take(i) =~= sizes.drop_last());
    } else {
        assert(sizes.drop_last().take(i) =~= sizes.take(i));
        lemma_count_prefix(sizes.drop_last(), i);
    }
}

/// Each font is installed on its own merits: the installed names are,
/// in the order of `sources`, the names of exactly those fonts whose own
/// file was read and is larger than `MIN_FONT_FILE_BYTES`, whatever the
/// other files are. The font at position `i` that qualifies is the
/// `count_large(sizes.take(i))`-th installed one, and nothing else is
/// installed.
pub proof fn lemma_usable_fonts_are_the_large_ones(
    sources: Seq<FontSource>,
    sizes: Seq<Option<usize>>,
)
    requires
        sizes.len() == sources.len(),
    ensures
        usable_font_names(sources, sizes).len() == count_large(sizes),
        forall|i: int|
            0 <= i < sources.len() && larger_than_minimum(#[trigger] sizes[i]) ==> usable_font_names(
                sources,
                sizes,
            )[count_large(sizes.take(i)) as int] == sources[i].name@,
    decreases sources.len(),
{
    if sources.len() > 0 {
        let n = sources.len() as int;
        let src0 = sources.drop_last();
        let sz0 = sizes.take(n - 1);
        assert(sz0 =~= sizes.drop_last());
        lemma_usable_fonts_are_the_large_ones(src0, sz0);
        let r0 = usable_font_names(src0, sz0);
        let r = usable_font_names(sources, sizes);
        assert(is_usable_size(sizes[n - 1]) == larger_than_minimum(sizes.last()));
        assert forall|i: int|
            0 <= i < sources.len() && larger_than_minimum(#[trigger] sizes[i]) implies r[count_large(
                sizes.take(i),
            ) as int] == sources[i].name@ by {
            if i < n - 1 {
                assert(sz0[i] == sizes[i]);
                assert(sz0.take(i) =~= sizes.take(i));
                lemma_count_prefix(sz0, i);
                assert(src0[i] == sources[i]);
            } else {
                assert(sizes.take(i) =~= sz0);
            }
        }
    }
}

} // verus!
