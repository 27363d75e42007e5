//! Character-level text operations and the extraction of a model's final
//! answer from its raw output.

use vstd::prelude::*;
use vstd::string::StrSliceExecFns;

verus! {

/// The characters with the Unicode `White_Space` property.
pub open spec fn is_white_space(c: char) -> bool {
    let u = c as u32;
    ||| 0x09 <= u <= 0x0D
    ||| u == 0x20
    ||| u == 0x85
    ||| u == 0xA0
    ||| u == 0x1680
    ||| 0x2000 <= u <= 0x200A
    ||| u == 0x2028
    ||| u == 0x2029
    ||| u == 0x202F
    ||| u == 0x205F
    ||| u == 0x3000
}

/// `s` without its leading white space.
pub open spec fn trim_start(s: Seq<char>) -> Seq<char>
    decreases s.len(),
{
    if s.len() > 0 && is_white_space(s[0]) {
        trim_start(s.drop_first())
    } else {
        s
    }
}

/// `s` without its trailing white space.
pub open spec fn trim_end(s: Seq<char>) -> Seq<char>
    decreases s.len(),
{
    if s.len() > 0 && is_white_space(s.last()) {
        trim_end(s.drop_last())
    } else {
        s
    }
}

/// `s` without leading and trailing white space.
pub open spec fn trim(s: Seq<char>) -> Seq<char> {
    trim_end(trim_start(s))
}

/// Neither the first nor the last character of `s` is white space.
pub open spec fn is_trimmed(s: Seq<char>) -> bool {
    s.len() > 0 ==> !is_white_space(s[0]) && !is_white_space(s.last())
}

/// `pat` occurs in `s` starting at position `i`.
pub open spec fn occurs_at(s: Seq<char>, pat: Seq<char>, i: int) -> bool {
    0 <= i && i + pat.len() <= s.len() && s.subrange(i, i + pat.len()) == pat
}

/// The first position at or after `i` where `pat` occurs in `s`.
pub open spec fn find_from(s: Seq<char>, pat: Seq<char>, i: int) -> Option<int>
    decreases s.len() - i,
{
    if i < 0 || i + pat.len() > s.len() {
        None
    } else if occurs_at(s, pat, i) {
        Some(i)
    } else if i < s.len() {
        find_from(s, pat, i + 1)
    } else {
        None
    }
}

/// The first position where `pat` occurs in `s`.
pub open spec fn find(s: Seq<char>, pat: Seq<char>) -> Option<int> {
    find_from(s, pat, 0)
}

/// `s` begins with `pat`.
pub open spec fn starts_with(s: Seq<char>, pat: Seq<char>) -> bool {
    occurs_at(s, pat, 0)
}

/// What the search reports: a position where `pat` occurs, at or after
/// `i`, before which it does not occur; or, when it finds none, that `pat`
/// occurs nowhere at or after `i`.
pub proof fn lemma_find_from(s: Seq<char>, pat: Seq<char>, i: int)
    requires
        0 <= i,
    ensures
        find_from(s, pat, i) matches Some(k) ==> i <= k && occurs_at(s, pat, k) && forall|j: int|
            i <= j < k ==> !occurs_at(s, pat, j),
        find_from(s, pat, i) is None ==> forall|j: int| i <= j ==> !occurs_at(s, pat, j),
    decreases s.len() - i,
{
    if i + pat.len() > s.len() {
    } else if occurs_at(s, pat, i) {
    } else if i < s.len() {
        lemma_find_from(s, pat, i + 1);
    } else {
        assert forall|j: int| i <= j implies !occurs_at(s, pat, j) by {
            if j > i {
            }
        }
    }
}

/// `find` reports the first occurrence of `pat`, or that there is none.
pub proof fn lemma_find(s: Seq<char>, pat: Seq<char>)
    ensures
        find(s, pat) matches Some(k) ==> occurs_at(s, pat, k) && forall|j: int|
            0 <= j < k ==> !occurs_at(s, pat, j),
        find(s, pat) is None ==> forall|j: int| !occurs_at(s, pat, j),
{
    lemma_find_from(s, pat, 0);
}

/// Dropping leading white space leaves a suffix that starts with a
/// character other than white space.
pub proof fn lemma_trim_start(s: Seq<char>)
    ensures
        exists|k: int| 0 <= k <= s.len() && trim_start(s) == s.subrange(k, s.len() as int),
        trim_start(s).len() > 0 ==> !is_white_space(trim_start(s)[0]),
    decreases s.len(),
{
    if s.len() > 0 && is_white_space(s[0]) {
        lemma_trim_start(s.drop_first());
        let k = choose|k: int|
            0 <= k <= s.drop_first().len() && trim_start(s.drop_first()) == s.drop_first().subrange(
                k,
                s.drop_first().len() as int,
            );
        assert(s.drop_first().subrange(k, s.drop_first().len() as int) =~= s.subrange(
            k + 1,
            s.len() as int,
        ));
    } else {
        assert(s.subrange(0, s.len() as int) =~= s);
    }
}

/// Dropping trailing white space leaves a prefix that ends with a character
/// other than white space.
pub proof fn lemma_trim_end(s: Seq<char>)
    ensures
        exists|k: int| 0 <= k <= s.len() && trim_end(s) == s.subrange(0, k),
        trim_end(s).len() > 0 ==> !is_white_space(trim_end(s).last()),
    decreases s.len(),
{
    if s.len() > 0 && is_white_space(s.last()) {
        lemma_trim_end(s.drop_last());
        let k = choose|k: int|
            0 <= k <= s.drop_last().len() && trim_end(s.drop_last()) == s.drop_last().subrange(
                0,
                k,
            );
        assert(s.drop_last().subrange(0, k) =~= s.subrange(0, k));
    } else {
        assert(s.subrange(0, s.len() as int) =~= s);
    }
}

/// Trimming yields text that has no white space at either end.
pub proof fn lemma_trim_is_trimmed(s: Seq<char>)
    ensures
        is_trimmed(trim(s)),
        exists|i: int, j: int| 0 <= i <= j <= s.len() && trim(s) == s.subrange(i, j),
{
    let u = trim_start(s);
    lemma_trim_start(s);
    lemma_trim_end(u);
    let i = choose|i: int| 0 <= i <= s.len() && u == s.subrange(i, s.len() as int);
    let k = choose|k: int| 0 <= k <= u.len() && trim_end(u) == u.subrange(0, k);
    assert(u.subrange(0, k) =~= s.subrange(i, i + k));
    if trim(s).len() > 0 {
        assert(trim(s)[0] == u[0]);
    }
}

/// Text that has no white space at either end is left as it is by trimming.
pub proof fn lemma_trim_of_trimmed(s: Seq<char>)
    requires
        is_trimmed(s),
    ensures
        trim(s) == s,
{
}

/// Trimming twice is trimming once.
pub proof fn lemma_trim_idempotent(s: Seq<char>)
    ensures
        trim(trim(s)) == trim(s),
{
    lemma_trim_is_trimmed(s);
    lemma_trim_of_trimmed(trim(s));
}

/// Whether `c` has the Unicode `White_Space` property.
pub fn is_white_space_char(c: char) -> (r: bool)
    ensures
        r == is_white_space(c),
{
    let u = c as u32;
    (0x09 <= u && u <= 0x0D) || u == 0x20 || u == 0x85 || u == 0xA0 || u == 0x1680 || (0x2000
        <= u && u <= 0x200A) || u == 0x2028 || u == 0x2029 || u == 0x202F || u == 0x205F || u
        == 0x3000
}

/// The characters of `s`, in order.
pub fn chars_of(s: &str) -> (v: Vec<char>)
    ensures
        v@ == s@,
{
    broadcast use vstd::string::group_string_axioms;
    let mut v: Vec<char> = Vec::new();
    for c in it: s.chars()
        invariant
            v@ == it.seq().take(it.index() as int),
            it.seq() == s@,
    {
        v.push(c);
    }
    v
}

/// Narrows the window `lo..hi` of `v` to its content without leading and
/// trailing white space.
pub fn trim_window(v: &Vec<char>, lo: usize, hi: usize) -> (r: (usize, usize))
    requires
        lo <= hi <= v.len(),
    ensures
        lo <= r.0 <= r.1 <= hi,
        v@.subrange(r.0 as int, r.1 as int) == trim(v@.subrange(lo as int, hi as int)),
{
    let mut a = lo;
    while a < hi && is_white_space_char(v[a])
        invariant
            lo <= a <= hi <= v.len(),
            trim_start(v@.subrange(lo as int, hi as int)) == trim_start(
                v@.subrange(a as int, hi as int),
            ),
        decreases hi - a,
    {
        assert(v@.subrange(a as int, hi as int).drop_first() =~= v@.subrange(
            a + 1,
            hi as int,
        ));
        a = a + 1;
    }
    let mut b = hi;
    while b > a && is_white_space_char(v[b - 1])
        invariant
            lo <= a <= b <= hi <= v.len(),
            trim(v@.subrange(lo as int, hi as int)) == trim_end(v@.subrange(a as int, b as int)),
        decreases b - a,
    {
        assert(v@.subrange(a as int, b as int).drop_last() =~= v@.subrange(
            a as int,
            b - 1,
        ));
        b = b - 1;
    }
    (a, b)
}

/// Whether `pat` occurs at offset `k` of the window `lo..hi` of `v`.
pub fn matches_at(v: &Vec<char>, lo: usize, hi: usize, k: usize, pat: &Vec<char>) -> (r: bool)
    requires
        lo <= hi <= v.len(),
    ensures
        r == occurs_at(v@.subrange(lo as int, hi as int), pat@, k as int),
{
    let ghost w = v@.subrange(lo as int, hi as int);
    let n = pat.len();
    if k > hi - lo || n > hi - lo - k {
        return false;
    }
    let mut j: usize = 0;
    while j < n
        invariant
            lo <= hi <= v.len(),
            w == v@.subrange(lo as int, hi as int),
            n == pat@.len(),
            k + n <= hi - lo,
            j <= n,
            forall|t: int| 0 <= t < j ==> w[k + t] == pat@[t],
        decreases n - j,
    {
        if v[lo + k + j] != pat[j] {
            assert(w.subrange(k as int, k + n)[j as int] != pat@[j as int]);
            return false;
        }
        j = j + 1;
    }
    assert(w.subrange(k as int, k + n) =~= pat@);
    true
}

/// The first offset, within the window `lo..hi` of `v`, where `pat`
/// occurs, as a position of `v`.
pub fn find_in(v: &Vec<char>, lo: usize, hi: usize, pat: &Vec<char>) -> (r: Option<usize>)
    requires
        lo <= hi <= v.len(),
        pat.len() > 0,
    ensures
        r is Some == find(v@.subrange(lo as int, hi as int), pat@) is Some,
        r is Some ==> r->0 == lo + find(v@.subrange(lo as int, hi as int), pat@)->0,
{
    let ghost w = v@.subrange(lo as int, hi as int);
    let mut k: usize = 0;
    while k <= hi - lo
        invariant
            lo <= hi <= v.len(),
            w == v@.subrange(lo as int, hi as int),
            pat@.len() > 0,
            k <= hi - lo + 1,
            find(w, pat@) == find_from(w, pat@, k as int),
        decreases hi - lo + 1 - k,
    {
        if pat.len() > hi - lo - k {
            return None;
        }
        if matches_at(v, lo, hi, k, pat) {
            return Some(lo + k);
        }
        k = k + 1;
    }
    None
}

/// Opening marker of a channel-style reasoning block.
pub open spec fn channel_open() -> Seq<char> {
    "<|channel>thought"@
}

/// Closing marker of a channel-style reasoning block.
pub open spec fn channel_close() -> Seq<char> {
    "<channel|>"@
}

/// Opening marker of a tag-style reasoning block.
pub open spec fn think_open() -> Seq<char> {
    "<think>"@
}

/// Closing marker of a tag-style reasoning block.
pub open spec fn think_close() -> Seq<char> {
    "</think>"@
}

/// Marks the start of an analysis section appended after the answer.
pub open spec fn analysis_marker() -> Seq<char> {
    "\n\n###"@
}

/// A heading that may open the answer.
pub open spec fn heading_marker() -> Seq<char> {
    "### "@
}

/// A line break.
pub open spec fn line_break() -> Seq<char> {
    "\n"@
}

/// `t` with a channel-style reasoning block dropped: when `t` holds the
/// opening marker and a closing marker, what follows the first closing
/// marker, trimmed; otherwise `t` itself.
pub open spec fn drop_channel_block(t: Seq<char>) -> Seq<char> {
    if find(t, channel_open()) is Some {
        match find(t, channel_close()) {
            Some(e) => trim(t.subrange(e + channel_close().len(), t.len() as int)),
            None => t,
        }
    } else {
        t
    }
}

/// `t` with a tag-style reasoning block dropped, or `None` while the block
/// is still open (opening tag present, closing tag absent).
pub open spec fn drop_think_block(t: Seq<char>) -> Option<Seq<char>> {
    if find(t, think_open()) is Some {
        match find(t, think_close()) {
            Some(e) => Some(trim(t.subrange(e + think_close().len(), t.len() as int))),
            None => None,
        }
    } else {
        Some(t)
    }
}

/// The answer in `t`: what precedes an analysis section, trimmed; or, when
/// `t` opens with a heading line, what follows that line, trimmed;
/// otherwise `t` itself.
pub open spec fn answer_part(t: Seq<char>) -> Seq<char> {
    match find(t, analysis_marker()) {
        Some(a) => trim(t.subrange(0, a)),
        None => if starts_with(t, heading_marker()) {
            match find(t, line_break()) {
                Some(n) => trim(t.subrange(n, t.len() as int)),
                None => t,
            }
        } else {
            t
        },
    }
}

/// The pair (reasoning, answer) extracted from a model's raw output: the
/// reasoning part is always empty; the answer is empty while a tag-style
/// reasoning block is still open.
pub open spec fn thought_split(text: Seq<char>) -> (Seq<char>, Seq<char>) {
    match drop_think_block(drop_channel_block(trim(text))) {
        Some(t) => (Seq::empty(), answer_part(t)),
        None => (Seq::empty(), Seq::empty()),
    }
}

/// The window of `v` that `drop_channel_block` leaves of the window
/// `lo..hi`.
fn drop_channel_window(v: &Vec<char>, lo: usize, hi: usize) -> (r: (usize, usize))
    requires
        lo <= hi <= v.len(),
    ensures
        lo <= r.0 <= r.1 <= hi,
        v@.subrange(r.0 as int, r.1 as int) == drop_channel_block(
            v@.subrange(lo as int, hi as int),
        ),
{
    proof {
        reveal_strlit("<|channel>thought");
        reveal_strlit("<channel|>");
    }
    let ghost t = v@.subrange(lo as int, hi as int);
    let open_c = chars_of("<|channel>thought");
    if find_in(v, lo, hi, &open_c).is_none() {
        return (lo, hi);
    }
    let close_c = chars_of("<channel|>");
    match find_in(v, lo, hi, &close_c) {
        Some(e) => {
            proof {
                lemma_find(t, close_c@);
            }
            assert(v@.subrange(e + close_c.len(), hi as int) =~= t.subrange(
                e - lo + close_c@.len(),
                t.len() as int,
            ));
            trim_window(v, e + close_c.len(), hi)
        },
        None => (lo, hi),
    }
}

/// The window of `v` that `drop_think_block` leaves of the window
/// `lo..hi`, if any.
fn drop_think_window(v: &Vec<char>, lo: usize, hi: usize) -> (r: Option<(usize, usize)>)
    requires
        lo <= hi <= v.len(),
    ensures
        r is Some == drop_think_block(v@.subrange(lo as int, hi as int)) is Some,
        r matches Some((a, b)) ==> lo <= a <= b <= hi && v@.subrange(a as int, b as int)
            == drop_think_block(v@.subrange(lo as int, hi as int))->0,
{
    proof {
        reveal_strlit("<think>");
        reveal_strlit("</think>");
    }
    let ghost t = v@.subrange(lo as int, hi as int);
    let open_t = chars_of("<think>");
    if find_in(v, lo, hi, &open_t).is_none() {
        return Some((lo, hi));
    }
    let close_t = chars_of("</think>");
    match find_in(v, lo, hi, &close_t) {
        Some(e) => {
            proof {
                lemma_find(t, close_t@);
            }
            assert(v@.subrange(e + close_t.len(), hi as int) =~= t.subrange(
                e - lo + close_t@.len(),
                t.len() as int,
            ));
            Some(trim_window(v, e + close_t.len(), hi))
        },
        None => None,
    }
}

/// The window of `v` that `answer_part` leaves of the window `lo..hi`.
fn answer_window(v: &Vec<char>, lo: usize, hi: usize) -> (r: (usize, usize))
    requires
        lo <= hi <= v.len(),
    ensures
        lo <= r.0 <= r.1 <= hi,
        v@.subrange(r.0 as int, r.1 as int) == answer_part(v@.subrange(lo as int, hi as int)),
{
    proof {
        reveal_strlit("\n\n###");
        reveal_strlit("### ");
        reveal_strlit("\n");
    }
    let ghost t = v@.subrange(lo as int, hi as int);
    let analysis = chars_of("\n\n###");
    match find_in(v, lo, hi, &analysis) {
        Some(a) => {
            proof {
                lemma_find(t, analysis@);
            }
            assert(v@.subrange(lo as int, a as int) =~= t.subrange(0, a - lo));
            trim_window(v, lo, a)
        },
        None => {
            let heading = chars_of("### ");
            if !matches_at(v, lo, hi, 0, &heading) {
                return (lo, hi);
            }
            let nl = chars_of("\n");
            match find_in(v, lo, hi, &nl) {
                Some(n) => {
                    proof {
                        lemma_find(t, nl@);
                    }
                    assert(v@.subrange(n as int, hi as int) =~= t.subrange(
                        n - lo,
                        t.len() as int,
                    ));
                    trim_window(v, n, hi)
                },
                None => (lo, hi),
            }
        },
    }
}

/// Splits a model's raw output into its reasoning and its answer, dropping
/// reasoning blocks and a trailing analysis section.
pub fn parse_thought_process(text: &str) -> (r: (String, String))
    ensures
        r.0@ == thought_split(text@).0,
        r.1@ == thought_split(text@).1,
        exists|i: int, j: int| 0 <= i <= j <= text@.len() && r.1@ == text@.subrange(i, j),
{
    let v = chars_of(text);
    assert(v@.subrange(0, v@.len() as int) =~= text@);
    let (lo, hi) = trim_window(&v, 0, v.len());
    let (lo, hi) = drop_channel_window(&v, lo, hi);
    match drop_think_window(&v, lo, hi) {
        Some((lo, hi)) => {
            let (lo, hi) = answer_window(&v, lo, hi);
            let answer = text.substring_char(lo, hi).to_owned();
            (String::new(), answer)
        },
        None => {
            let empty = String::new();
            assert(empty@ =~= text@.subrange(0, 0));
            (String::new(), empty)
        },
    }
}

/// The answer extracted from any output has no white space at either end.
pub proof fn lemma_answer_is_trimmed(text: Seq<char>)
    ensures
        is_trimmed(thought_split(text).1),
{
    let t0 = trim(text);
    lemma_trim_is_trimmed(text);
    let t1 = drop_channel_block(t0);
    if find(t0, channel_open()) is Some {
        if let Some(e) = find(t0, channel_close()) {
            lemma_trim_is_trimmed(t0.subrange(e + channel_close().len(), t0.len() as int));
        }
    }
    if find(t1, think_open()) is Some {
        if let Some(e) = find(t1, think_close()) {
            lemma_trim_is_trimmed(t1.subrange(e + think_close().len(), t1.len() as int));
        }
    }
    if let Some(t2) = drop_think_block(t1) {
        if let Some(a) = find(t2, analysis_marker()) {
            lemma_trim_is_trimmed(t2.subrange(0, a));
        } else if starts_with(t2, heading_marker()) {
            if let Some(n) = find(t2, line_break()) {
                lemma_trim_is_trimmed(t2.subrange(n, t2.len() as int));
            }
        }
    }
}

/// Output that holds none of the markers comes back as it is, trimmed.
pub proof fn lemma_plain_output(text: Seq<char>)
    requires
        find(trim(text), channel_open()) is None,
        find(trim(text), think_open()) is None,
        find(trim(text), analysis_marker()) is None,
        !starts_with(trim(text), heading_marker()),
    ensures
        thought_split(text) == (Seq::<char>::empty(), trim(text)),
{
}

/// An output whose reasoning tag is opened and not yet closed yields no
/// answer.
pub proof fn lemma_open_think_block(text: Seq<char>)
    requires
        find(drop_channel_block(trim(text)), think_open()) is Some,
        find(drop_channel_block(trim(text)), think_close()) is None,
    ensures
        thought_split(text) == (Seq::<char>::empty(), Seq::<char>::empty()),
{
}

/// The code points with the Unicode `White_Space` property: U+0009 to
/// U+000D, U+0020, U+0085, U+00A0, U+1680, U+2000 to U+200A, U+2028,
/// U+2029, U+202F, U+205F and U+3000.
pub open spec fn unicode_white_space(u: u32) -> bool {
    (9 <= u && u <= 13) || u == 32 || u == 133 || u == 160 || u == 5760 || (8192 <= u && u
        <= 8202) || u == 8232 || u == 8233 || u == 8239 || u == 8287 || u == 12288
}

/// The white space that trimming removes is exactly Unicode's
/// `White_Space`, the set that `char::is_whitespace` tests.
pub proof fn lemma_white_space_is_unicode(c: char)
    ensures
        is_white_space(c) <==> unicode_white_space(c as u32),
{
}

/// Where trimming starts: every character before it is white space, and
/// the one at it is not.
proof fn lemma_trim_start_at(s: Seq<char>) -> (k: int)
    ensures
        0 <= k <= s.len(),
        trim_start(s) == s.subrange(k, s.len() as int),
        forall|m: int| 0 <= m < k ==> is_white_space(#[trigger] s[m]),
        k < s.len() ==> !is_white_space(s[k]),
    decreases s.len(),
{
    if s.len() > 0 && is_white_space(s[0]) {
        let k1 = lemma_trim_start_at(s.drop_first());
        assert(s.drop_first().subrange(k1, s.drop_first().len() as int) =~= s.subrange(
            k1 + 1,
            s.len() as int,
        ));
        assert forall|m: int| 0 <= m < k1 + 1 implies is_white_space(#[trigger] s[m]) by {
            if m > 0 {
                assert(s[m] == s.drop_first()[m - 1]);
            }
        }
        k1 + 1
    } else {
        assert(s.subrange(0, s.len() as int) =~= s);
        0
    }
}

/// Where trimming ends: every character from it on is white space, and
/// the one before it is not.
proof fn lemma_trim_end_at(s: Seq<char>) -> (k: int)
    ensures
        0 <= k <= s.len(),
        trim_end(s) == s.subrange(0, k),
        forall|m: int| k <= m < s.len() ==> is_white_space(#[trigger] s[m]),
        k > 0 ==> !is_white_space(s[k - 1]),
    decreases s.len(),
{
    if s.len() > 0 && is_white_space(s.last()) {
        let k1 = lemma_trim_end_at(s.drop_last());
        assert(s.drop_last().subrange(0, k1) =~= s.subrange(0, k1));
        assert forall|m: int| k1 <= m < s.len() implies is_white_space(#[trigger] s[m]) by {
            if m < s.len() - 1 {
                assert(s[m] == s.drop_last()[m]);
            }
        }
        k1
    } else {
        assert(s.subrange(0, s.len() as int) =~= s);
        s.len() as int
    }
}

/// Trimming keeps a contiguous piece of the text and removes only Unicode
/// `White_Space` around it: every removed character is white space, and a
/// kept piece starts and ends with a character that is not, so every
/// other character (a full stop `。` among them) stays.
pub proof fn lemma_trim_removes_only_white_space(s: Seq<char>) -> (r: (int, int))
    ensures
        0 <= r.0 <= r.1 <= s.len(),
        trim(s) == s.subrange(r.0, r.1),
        forall|m: int| 0 <= m < r.0 ==> unicode_white_space(#[trigger] s[m] as u32),
        forall|m: int| r.1 <= m < s.len() ==> unicode_white_space(#[trigger] s[m] as u32),
        r.0 < r.1 ==> !unicode_white_space(s[r.0] as u32) && !unicode_white_space(
            s[r.1 - 1] as u32,
        ),
{
    let i = lemma_trim_start_at(s);
    let u = s.subrange(i, s.len() as int);
    let k = lemma_trim_end_at(u);
    assert(u.subrange(0, k) =~= s.subrange(i, i + k));
    assert forall|m: int| 0 <= m < i implies unicode_white_space(#[trigger] s[m] as u32) by {
        lemma_white_space_is_unicode(s[m]);
    }
    assert forall|m: int| i + k <= m < s.len() implies unicode_white_space(
        #[trigger] s[m] as u32,
    ) by {
        assert(s[m] == u[m - i]);
        lemma_white_space_is_unicode(s[m]);
    }
    if k > 0 {
        assert(s[i] == u[0]);
        assert(s[i + k - 1] == u[k - 1]);
        lemma_white_space_is_unicode(s[i]);
        lemma_white_space_is_unicode(s[i + k - 1]);
    }
    (i, i + k)
}

/// `pat` occurs nowhere in the part `x..y` of `s`, so it occurs nowhere in
/// that part taken alone, nor in any piece of it.
proof fn lemma_absent_in_part(s: Seq<char>, pat: Seq<char>, x: int, y: int, p: int, q: int)
    requires
        0 <= x <= y <= s.len(),
        0 <= p <= q <= y - x,
        forall|j: int| x <= j && j + pat.len() <= y ==> !occurs_at(s, pat, j),
    ensures
        forall|i: int| !occurs_at(s.subrange(x, y).subrange(p, q), pat, i),
{
    let piece = s.subrange(x, y).subrange(p, q);
    assert forall|i: int| !occurs_at(piece, pat, i) by {
        if occurs_at(piece, pat, i) {
            assert(s.subrange(x + p + i, x + p + i + pat.len()) =~= piece.subrange(
                i,
                i + pat.len(),
            ));
            assert(occurs_at(s, pat, x + p + i));
        }
    }
}

/// Trimming a part of `s` that holds no `pat` leaves text without `pat`.
proof fn lemma_trimmed_part_lacks(s: Seq<char>, pat: Seq<char>, x: int, y: int)
    requires
        0 <= x <= y <= s.len(),
        forall|j: int| x <= j && j + pat.len() <= y ==> !occurs_at(s, pat, j),
    ensures
        forall|i: int| !occurs_at(trim(s.subrange(x, y)), pat, i),
{
    let r = lemma_trim_removes_only_white_space(s.subrange(x, y));
    lemma_absent_in_part(s, pat, x, y, r.0, r.1);
}

/// Whenever the text holds an analysis section (`\n\n###`), the answer is
/// the text before its first occurrence, trimmed, whether or not the text
/// opens with a heading line.
pub proof fn lemma_analysis_section_is_cut(t: Seq<char>, a: int)
    requires
        occurs_at(t, "\n\n###"@, a),
        forall|j: int| 0 <= j < a ==> !occurs_at(t, "\n\n###"@, j),
    ensures
        answer_part(t) == trim(t.subrange(0, a)),
{
    lemma_find(t, analysis_marker());
    if let Some(k) = find(t, analysis_marker()) {
        assert(k == a);
    }
}

/// A text that opens with a heading line and holds no analysis section
/// answers with everything after the heading line, from its first line
/// break to the end, trimmed.
pub proof fn lemma_heading_line_is_skipped(t: Seq<char>, n: int)
    requires
        occurs_at(t, "### "@, 0),
        forall|i: int| !occurs_at(t, "\n\n###"@, i),
        0 <= n < t.len(),
        t[n] == '\n',
        forall|j: int| 0 <= j < n ==> t[j] != '\n',
    ensures
        answer_part(t) == trim(t.subrange(n, t.len() as int)),
{
    reveal_strlit("\n");
    lemma_find(t, analysis_marker());
    lemma_find(t, line_break());
    assert(t.subrange(n, n + 1) =~= "\n"@);
    assert(occurs_at(t, line_break(), n));
    if let Some(k) = find(t, line_break()) {
        assert(t.subrange(k, k + 1)[0] == t[k]);
        if k < n {
            assert(t[k] == '\n');
        }
        assert(k == n);
    }
}

/// An answer never holds an analysis section: the text before the first
/// `\n\n###` holds none, and without one the text holds none.
pub proof fn lemma_answer_lacks_analysis(t: Seq<char>)
    ensures
        forall|i: int| !occurs_at(answer_part(t), "\n\n###"@, i),
{
    reveal_strlit("\n\n###");
    let m = analysis_marker();
    lemma_find(t, m);
    match find(t, m) {
        Some(a) => {
            lemma_trimmed_part_lacks(t, m, 0, a);
        },
        None => {
            if starts_with(t, heading_marker()) {
                lemma_find(t, line_break());
                if let Some(n) = find(t, line_break()) {
                    lemma_trimmed_part_lacks(t, m, n, t.len() as int);
                } else {
                    assert(t.subrange(0, t.len() as int) =~= t);
                    lemma_absent_in_part(t, m, 0, t.len() as int, 0, t.len() as int);
                    assert(t.subrange(0, t.len() as int).subrange(0, t.len() as int) =~= t);
                }
            } else {
                lemma_absent_in_part(t, m, 0, t.len() as int, 0, t.len() as int);
                assert(t.subrange(0, t.len() as int).subrange(0, t.len() as int) =~= t);
            }
        },
    }
}

/// The answer extracted from any output never holds `\n\n###`.
pub proof fn lemma_output_answer_lacks_analysis(text: Seq<char>)
    ensures
        forall|i: int| !occurs_at(thought_split(text).1, "\n\n###"@, i),
{
    reveal_strlit("\n\n###");
    match drop_think_block(drop_channel_block(trim(text))) {
        Some(t) => lemma_answer_lacks_analysis(t),
        None => {},
    }
}

} // verus!
