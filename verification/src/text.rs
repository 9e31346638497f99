//! Character-level text primitives used by the HTML and path processing code.
use vstd::prelude::*;

verus! {

broadcast use vstd::string::group_string_axioms;

/// Unicode `White_Space` property, the set that `char::is_whitespace` tests.
pub open spec fn is_whitespace(c: char) -> bool {
    ||| ('\u{9}' <= c && c <= '\u{d}')
    ||| c == ' '
    ||| c == '\u{85}'
    ||| c == '\u{a0}'
    ||| c == '\u{1680}'
    ||| ('\u{2000}' <= c && c <= '\u{200a}')
    ||| c == '\u{2028}'
    ||| c == '\u{2029}'
    ||| c == '\u{202f}'
    ||| c == '\u{205f}'
    ||| c == '\u{3000}'
}

/// Whether `c` is white space in the sense of `char::is_whitespace`.
pub fn char_is_whitespace(c: char) -> (r: bool)
    ensures
        r == is_whitespace(c),
{
    ('\u{9}' <= c && c <= '\u{d}') || c == ' ' || c == '\u{85}' || c == '\u{a0}' || c == '\u{1680}'
        || ('\u{2000}' <= c && c <= '\u{200a}') || c == '\u{2028}' || c == '\u{2029}' || c
        == '\u{202f}' || c == '\u{205f}' || c == '\u{3000}'
}

/// The characters of `s`, in order.
pub fn chars_of(s: &str) -> (v: Vec<char>)
    ensures
        v@ == s@,
{
    let mut v: Vec<char> = Vec::new();
    for c in it: s.chars()
        invariant
            v@ == it.seq().take(it.index() as int),
    {
        v.push(c);
    }
    v
}

} // verus!

verus! {

/// The characters of `v` as a `String` (`FromIterator<char> for String`).
#[verifier::external_body]
pub(crate) fn string_of(v: &[char]) -> (s: String)
    ensures
        s@ == v@,
{
    v.iter().collect()
}

/// `s` ends with `pat`.
pub open spec fn ends_with(s: Seq<char>, pat: Seq<char>) -> bool {
    pat.len() <= s.len() && s.subrange(s.len() - pat.len(), s.len() as int) == pat
}

/// `s` holds `pat` at position `i`.
pub open spec fn matches_at(s: Seq<char>, i: int, pat: Seq<char>) -> bool {
    0 <= i && i + pat.len() <= s.len() && s.subrange(i, i + pat.len()) == pat
}

/// The first position `>= from` at which `pat` occurs in `s` (`str::find` on `s[from..]`,
/// counted from the start of `s`).
pub open spec fn find_from(s: Seq<char>, pat: Seq<char>, from: int) -> Option<int>
    decreases s.len() - from,
{
    if from < 0 || from + pat.len() > s.len() {
        None
    } else if matches_at(s, from, pat) {
        Some(from)
    } else if from >= s.len() {
        None
    } else {
        find_from(s, pat, from + 1)
    }
}

/// What `find_from` returns: the first match at or after `from`, or none at all.
pub proof fn lemma_find_from(s: Seq<char>, pat: Seq<char>, from: int)
    requires
        0 <= from,
    ensures
        match find_from(s, pat, from) {
            Some(i) => from <= i && matches_at(s, i, pat) && forall|j: int|
                from <= j < i ==> !matches_at(s, j, pat),
            None => forall|j: int| from <= j ==> !matches_at(s, j, pat),
        },
    decreases s.len() - from,
{
    if from + pat.len() > s.len() {
    } else if matches_at(s, from, pat) {
    } else if from >= s.len() {
    } else {
        lemma_find_from(s, pat, from + 1);
    }
}

/// `find_from` is determined by the first match: any position that matches and has no match
/// between `from` and itself is the result.
pub proof fn lemma_find_from_unique(s: Seq<char>, pat: Seq<char>, from: int, i: int)
    requires
        0 <= from <= i,
        matches_at(s, i, pat),
        forall|j: int| from <= j < i ==> !matches_at(s, j, pat),
    ensures
        find_from(s, pat, from) == Some(i),
    decreases i - from,
{
    if from < i {
        lemma_find_from_unique(s, pat, from + 1, i);
    }
}

/// Whether `pat` occurs in `s` at `i` (executable).
pub fn matches_at_exec(s: &Vec<char>, i: usize, pat: &Vec<char>) -> (r: bool)
    ensures
        r == matches_at(s@, i as int, pat@),
{
    if i > s.len() || pat.len() > s.len() - i {
        return false;
    }
    let mut k: usize = 0;
    while k < pat.len()
        invariant
            i + pat.len() <= s.len(),
            k <= pat.len(),
            forall|m: int| 0 <= m < k ==> s@[i + m] == pat@[m],
        decreases pat.len() - k,
    {
        if s[i + k] != pat[k] {
            assert(s@.subrange(i as int, i + pat.len())[k as int] != pat@[k as int]);
            return false;
        }
        k = k + 1;
    }
    assert(s@.subrange(i as int, i + pat.len()) =~= pat@);
    true
}

/// Whether `s` ends with `pat` (executable).
pub fn ends_with_exec(s: &Vec<char>, pat: &Vec<char>) -> (r: bool)
    ensures
        r == ends_with(s@, pat@),
{
    if pat.len() > s.len() {
        return false;
    }
    matches_at_exec(s, s.len() - pat.len(), pat)
}

/// The first occurrence of `pat` in `s` at or after `from`.
pub fn find_chars(s: &Vec<char>, pat: &Vec<char>, from: usize) -> (r: Option<usize>)
    ensures
        r matches Some(i) ==> find_from(s@, pat@, from as int) == Some(i as int),
        r is None ==> find_from(s@, pat@, from as int) is None,
{
    let mut i = from;
    while i < s.len() && pat.len() <= s.len() - i
        invariant
            from <= i,
            forall|j: int| from <= j < i ==> !matches_at(s@, j, pat@),
        decreases s.len() - i,
    {
        if matches_at_exec(s, i, pat) {
            proof {
                lemma_find_from_unique(s@, pat@, from as int, i as int);
            }
            return Some(i);
        }
        i = i + 1;
    }
    if matches_at_exec(s, i, pat) {
        proof {
            lemma_find_from_unique(s@, pat@, from as int, i as int);
        }
        return Some(i);
    }
    proof {
        lemma_find_from(s@, pat@, from as int);
        if let Some(k) = find_from(s@, pat@, from as int) {
            assert(matches_at(s@, k, pat@));
        }
    }
    None
}

/// The first occurrence of the single character `c` at or after `from`.
pub fn find_char(s: &Vec<char>, c: char, from: usize) -> (r: Option<usize>)
    ensures
        r matches Some(i) ==> find_from(s@, seq![c], from as int) == Some(i as int),
        r is None ==> find_from(s@, seq![c], from as int) is None,
{
    let pat = vec![c];
    assert(pat@ =~= seq![c]);
    find_chars(s, &pat, from)
}

/// The last position before `end` that holds `c`.
pub open spec fn rfind_before(s: Seq<char>, c: char, end: int) -> Option<int>
    decreases end,
{
    if end <= 0 {
        None
    } else if s[end - 1] == c {
        Some(end - 1)
    } else {
        rfind_before(s, c, end - 1)
    }
}

/// The last position before `end` holding `c` (`str::rfind` on `s[..end]`).
pub fn rfind_char_before(s: &Vec<char>, c: char, end: usize) -> (r: Option<usize>)
    requires
        end <= s.len(),
    ensures
        r matches Some(i) ==> rfind_before(s@, c, end as int) == Some(i as int),
        r is None ==> rfind_before(s@, c, end as int) is None,
{
    let mut k = end;
    while k > 0
        invariant
            k <= end <= s.len(),
            rfind_before(s@, c, end as int) == rfind_before(s@, c, k as int),
        decreases k,
    {
        if s[k - 1] == c {
            return Some(k - 1);
        }
        k = k - 1;
    }
    None
}

/// Appends `s[a..b]` to `out`.
pub fn push_range(out: &mut Vec<char>, s: &Vec<char>, a: usize, b: usize)
    requires
        a <= b <= s.len(),
    ensures
        final(out)@ == old(out)@ + s@.subrange(a as int, b as int),
{
    let ghost start = out@;
    let mut k = a;
    while k < b
        invariant
            a <= k <= b <= s.len(),
            out@ == start + s@.subrange(a as int, k as int),
        decreases b - k,
    {
        out.push(s[k]);
        k = k + 1;
        assert(s@.subrange(a as int, k as int) =~= s@.subrange(a as int, k - 1).push(s@[k - 1]));
    }
}

/// Appends all of `s` to `out`.
pub fn push_all(out: &mut Vec<char>, s: &Vec<char>)
    ensures
        final(out)@ == old(out)@ + s@,
{
    push_range(out, s, 0, s.len());
    assert(s@.subrange(0, s@.len() as int) =~= s@);
}

/// `s[a..b]` as a new vector.
pub fn slice_chars(s: &Vec<char>, a: usize, b: usize) -> (r: Vec<char>)
    requires
        a <= b <= s.len(),
    ensures
        r@ == s@.subrange(a as int, b as int),
{
    let mut r = Vec::new();
    push_range(&mut r, s, a, b);
    assert(Seq::<char>::empty() + s@.subrange(a as int, b as int) =~= s@.subrange(a as int, b as int));
    r
}

/// Index of the first character at or after `i` that is not white space.
pub open spec fn skip_whitespace(s: Seq<char>, i: int) -> int
    decreases s.len() - i,
{
    if i < 0 || i >= s.len() {
        i
    } else if is_whitespace(s[i]) {
        skip_whitespace(s, i + 1)
    } else {
        i
    }
}

/// One past the last character before `end` that is not white space (or `start`).
pub open spec fn trim_end_index(s: Seq<char>, start: int, end: int) -> int
    decreases end - start,
{
    if end <= start {
        end
    } else if is_whitespace(s[end - 1]) {
        trim_end_index(s, start, end - 1)
    } else {
        end
    }
}

/// `str::trim`: `s` without leading and trailing white space.
pub open spec fn trim(s: Seq<char>) -> Seq<char> {
    let start = skip_whitespace(s, 0);
    s.subrange(start, trim_end_index(s, start, s.len() as int))
}

pub proof fn lemma_skip_whitespace_bounds(s: Seq<char>, i: int)
    requires
        0 <= i <= s.len(),
    ensures
        i <= skip_whitespace(s, i) <= s.len(),
    decreases s.len() - i,
{
    if i < s.len() && is_whitespace(s[i]) {
        lemma_skip_whitespace_bounds(s, i + 1);
    }
}

pub proof fn lemma_trim_end_index_bounds(s: Seq<char>, start: int, end: int)
    requires
        0 <= start <= end <= s.len(),
    ensures
        start <= trim_end_index(s, start, end) <= end,
    decreases end - start,
{
    if end > start && is_whitespace(s[end - 1]) {
        lemma_trim_end_index_bounds(s, start, end - 1);
    }
}

/// Index of the first non-white-space character at or after `i` (executable).
pub fn skip_whitespace_exec(s: &Vec<char>, i: usize) -> (r: usize)
    requires
        i <= s.len(),
    ensures
        r == skip_whitespace(s@, i as int),
        i <= r <= s.len(),
{
    let mut k = i;
    while k < s.len() && char_is_whitespace(s[k])
        invariant
            i <= k <= s.len(),
            skip_whitespace(s@, i as int) == skip_whitespace(s@, k as int),
        decreases s.len() - k,
    {
        k = k + 1;
    }
    k
}

/// `s` with leading and trailing white space removed.
pub fn trim_chars(s: &Vec<char>) -> (r: Vec<char>)
    ensures
        r@ == trim(s@),
{
    let start = skip_whitespace_exec(s, 0);
    let mut end = s.len();
    while end > start && char_is_whitespace(s[end - 1])
        invariant
            start <= end <= s.len(),
            trim_end_index(s@, start as int, s.len() as int) == trim_end_index(
                s@,
                start as int,
                end as int,
            ),
        decreases end,
    {
        end = end - 1;
    }
    slice_chars(s, start, end)
}

} // verus!

verus! {

/// Number of bytes that `c` takes in UTF-8 (`char::len_utf8`).
pub open spec fn char_utf8_len(c: char) -> nat {
    if (c as u32) < 0x80 {
        1
    } else if (c as u32) < 0x800 {
        2
    } else if (c as u32) < 0x10000 {
        3
    } else {
        4
    }
}

/// Number of bytes that `s` takes in UTF-8 (`str::len`).
pub open spec fn utf8_len(s: Seq<char>) -> nat
    decreases s.len(),
{
    if s.len() == 0 {
        0
    } else {
        utf8_len(s.drop_last()) + char_utf8_len(s.last())
    }
}

/// Byte length of `s` in UTF-8.
pub fn utf8_len_exec(s: &Vec<char>) -> (r: u128)
    ensures
        r == utf8_len(s@),
{
    let mut acc: u128 = 0;
    let mut k: usize = 0;
    while k < s.len()
        invariant
            k <= s.len(),
            acc == utf8_len(s@.take(k as int)),
            acc <= 4 * k,
        decreases s.len() - k,
    {
        let c = s[k];
        let n: u128 = if (c as u32) < 0x80 {
            1
        } else if (c as u32) < 0x800 {
            2
        } else if (c as u32) < 0x10000 {
            3
        } else {
            4
        };
        assert(s@.take(k + 1).drop_last() =~= s@.take(k as int));
        acc = acc + n;
        k = k + 1;
    }
    assert(s@.take(s.len() as int) =~= s@);
    acc
}

/// ASCII lower case of `c` (`char::to_ascii_lowercase`).
pub open spec fn ascii_lower(c: char) -> char {
    if 'A' <= c && c <= 'Z' {
        ((c as u32) + 32) as char
    } else {
        c
    }
}

/// ASCII lower case of `c`.
pub fn ascii_lower_exec(c: char) -> (r: char)
    ensures
        r == ascii_lower(c),
{
    if 'A' <= c && c <= 'Z' {
        ((c as u8) + 32) as char
    } else {
        c
    }
}

/// ASCII lower case of every character of `s`.
pub open spec fn ascii_lowercase(s: Seq<char>) -> Seq<char> {
    s.map_values(|c: char| ascii_lower(c))
}

} // verus!

verus! {

/// `s` with the characters in `a..b` taken out.
pub open spec fn cut(s: Seq<char>, a: int, b: int) -> Seq<char> {
    s.subrange(0, a) + s.subrange(b, s.len() as int)
}

/// `s` with `a..b` taken out (`String::replace_range` with an empty replacement).
pub fn cut_range(s: &Vec<char>, a: usize, b: usize) -> (r: Vec<char>)
    requires
        a <= b <= s.len(),
    ensures
        r@ == cut(s@, a as int, b as int),
{
    let mut r = slice_chars(s, 0, a);
    push_range(&mut r, s, b, s.len());
    r
}

/// `str::replace`: every non-overlapping occurrence of `pat`, from left to right, replaced by
/// `rep`.
pub open spec fn replace_all(s: Seq<char>, pat: Seq<char>, rep: Seq<char>) -> Seq<char>
    decreases s.len(),
{
    if pat.len() == 0 {
        s
    } else {
        match find_from(s, pat, 0) {
            None => s,
            Some(i) => {
                proof {
                    lemma_find_from(s, pat, 0);
                }
                s.subrange(0, i) + rep + replace_all(s.subrange(i + pat.len(), s.len() as int), pat, rep)
            },
        }
    }
}

/// Searching a suffix is searching the whole text from where the suffix begins.
pub proof fn lemma_find_from_suffix(s: Seq<char>, pat: Seq<char>, c: int, from: int)
    requires
        0 <= c <= s.len(),
        0 <= from,
    ensures
        find_from(s.subrange(c, s.len() as int), pat, from) == (match find_from(s, pat, c + from) {
            Some(i) => Some(i - c),
            None => None,
        }),
    decreases s.len() - c - from,
{
    let t = s.subrange(c, s.len() as int);
    assert(matches_at(t, from, pat) == matches_at(s, c + from, pat)) by {
        if from + pat.len() <= t.len() {
            assert(t.subrange(from, from + pat.len()) =~= s.subrange(c + from, c + from + pat.len()));
        }
    }
    if from + pat.len() > t.len() {
    } else if matches_at(t, from, pat) {
    } else if from >= t.len() {
    } else {
        lemma_find_from_suffix(s, pat, c, from + 1);
    }
}

/// `s` with every occurrence of `pat` replaced by `rep`.
pub fn replace_all_chars(s: &Vec<char>, pat: &Vec<char>, rep: &Vec<char>) -> (r: Vec<char>)
    requires
        pat.len() > 0,
    ensures
        r@ == replace_all(s@, pat@, rep@),
{
    let mut out: Vec<char> = Vec::new();
    let mut cursor: usize = 0;
    proof {
        assert(s@.subrange(0, s@.len() as int) =~= s@);
    }
    while cursor <= s.len()
        invariant
            pat.len() > 0,
            cursor <= s.len(),
            out@ + replace_all(s@.subrange(cursor as int, s.len() as int), pat@, rep@) == replace_all(
                s@,
                pat@,
                rep@,
            ),
        decreases s.len() - cursor,
    {
        let ghost t = s@.subrange(cursor as int, s.len() as int);
        proof {
            lemma_find_from_suffix(s@, pat@, cursor as int, 0);
            lemma_find_from(s@, pat@, cursor as int);
        }
        match find_chars(s, pat, cursor) {
            None => {
                push_range(&mut out, s, cursor, s.len());
                return out;
            },
            Some(i) => {
                let ghost j = i - cursor;
                proof {
                    assert(t.subrange(0, j) =~= s@.subrange(cursor as int, i as int));
                    assert(t.subrange(j + pat.len(), t.len() as int) =~= s@.subrange(
                        i + pat.len(),
                        s.len() as int,
                    ));
                }
                let ghost before = out@;
                push_range(&mut out, s, cursor, i);
                push_all(&mut out, rep);
                proof {
                    assert(out@ =~= before + s@.subrange(cursor as int, i as int) + rep@);
                    assert(replace_all(t, pat@, rep@) == t.subrange(0, j) + rep@ + replace_all(
                        t.subrange(j + pat.len(), t.len() as int),
                        pat@,
                        rep@,
                    ));
                    assert(before + replace_all(t, pat@, rep@) =~= out@ + replace_all(
                        s@.subrange(i + pat.len(), s.len() as int),
                        pat@,
                        rep@,
                    ));
                }
                cursor = i + pat.len();
            },
        }
    }
    out
}

} // verus!

verus! {

/// Collapsing white space in `s`, left to right: the text so far and whether it ends in a
/// collapsed run.
pub open spec fn collapse_fold(s: Seq<char>) -> (Seq<char>, bool)
    decreases s.len(),
{
    if s.len() == 0 {
        (seq![], false)
    } else {
        let (out, previous_space) = collapse_fold(s.drop_last());
        let c = s.last();
        if is_whitespace(c) {
            if previous_space {
                (out, true)
            } else {
                (out.push(' '), true)
            }
        } else {
            (out.push(c), false)
        }
    }
}

/// `s` with every run of white space replaced by one space.
pub open spec fn collapse_whitespace(s: Seq<char>) -> Seq<char> {
    collapse_fold(s).0
}

/// `value` with every run of white space replaced by one space.
pub fn collapse_inline_whitespace(value: &Vec<char>) -> (r: Vec<char>)
    ensures
        r@ == collapse_whitespace(value@),
{
    let mut output: Vec<char> = Vec::new();
    let mut previous_space = false;
    let mut k: usize = 0;
    while k < value.len()
        invariant
            k <= value.len(),
            (output@, previous_space) == collapse_fold(value@.take(k as int)),
        decreases value.len() - k,
    {
        let c = value[k];
        assert(value@.take(k + 1).drop_last() =~= value@.take(k as int));
        if char_is_whitespace(c) {
            if !previous_space {
                output.push(' ');
            }
            previous_space = true;
        } else {
            output.push(c);
            previous_space = false;
        }
        k = k + 1;
    }
    assert(value@.take(value.len() as int) =~= value@);
    output
}

/// A line without its trailing `\r`, if it has one.
pub open spec fn strip_cr(l: Seq<char>) -> Seq<char> {
    if l.len() > 0 && l.last() == '\r' {
        l.drop_last()
    } else {
        l
    }
}

/// Splitting `s` into lines, left to right: the finished lines and the line being read.
pub open spec fn lines_fold(s: Seq<char>) -> (Seq<Seq<char>>, Seq<char>)
    decreases s.len(),
{
    if s.len() == 0 {
        (seq![], seq![])
    } else {
        let (done, current) = lines_fold(s.drop_last());
        if s.last() == '\n' {
            (done.push(strip_cr(current)), seq![])
        } else {
            (done, current.push(s.last()))
        }
    }
}

/// `str::lines`: the lines of `s`, split at `\n`, a `\r` before the `\n` dropped, with no
/// empty last line after a final `\n`.
pub open spec fn lines(s: Seq<char>) -> Seq<Seq<char>> {
    let (done, current) = lines_fold(s);
    if current.len() > 0 {
        done.push(current)
    } else {
        done
    }
}

} // verus!

verus! {

/// Unicode general category `Cc` (`char::is_control`).
pub open spec fn is_control(c: char) -> bool {
    (c as u32) <= 0x1f || (0x7f <= (c as u32) && (c as u32) <= 0x9f)
}

/// Whether `c` is a control character.
pub fn char_is_control(c: char) -> (r: bool)
    ensures
        r == is_control(c),
{
    (c as u32) <= 0x1f || (0x7f <= (c as u32) && (c as u32) <= 0x9f)
}

/// `char::is_ascii_digit`.
pub open spec fn is_ascii_digit(c: char) -> bool {
    '0' <= c && c <= '9'
}

/// `char::is_ascii_alphanumeric`.
pub open spec fn is_ascii_alphanumeric(c: char) -> bool {
    is_ascii_digit(c) || ('a' <= c && c <= 'z') || ('A' <= c && c <= 'Z')
}

/// A character that `trim_matches(['.', '_'])` (with `' '` too when `with_space`) strips.
pub open spec fn is_trimmed_punct(c: char, with_space: bool) -> bool {
    c == '.' || c == '_' || (with_space && c == ' ')
}

/// First position at or after `i` whose character is not stripped.
pub open spec fn punct_start(s: Seq<char>, i: int, with_space: bool) -> int
    decreases s.len() - i,
{
    if i < 0 || i >= s.len() {
        i
    } else if is_trimmed_punct(s[i], with_space) {
        punct_start(s, i + 1, with_space)
    } else {
        i
    }
}

/// One past the last character before `end` (and not before `start`) that is not stripped.
pub open spec fn punct_end(s: Seq<char>, start: int, end: int, with_space: bool) -> int
    decreases end - start,
{
    if end <= start {
        end
    } else if is_trimmed_punct(s[end - 1], with_space) {
        punct_end(s, start, end - 1, with_space)
    } else {
        end
    }
}

/// `str::trim_matches` with `.` and `_` (and `' '` when `with_space`).
pub open spec fn trim_punct(s: Seq<char>, with_space: bool) -> Seq<char> {
    let start = punct_start(s, 0, with_space);
    s.subrange(start, punct_end(s, start, s.len() as int, with_space))
}

/// `s` without leading and trailing `.` and `_` (and `' '` when `with_space`).
pub fn trim_punct_chars(s: &Vec<char>, with_space: bool) -> (r: Vec<char>)
    ensures
        r@ == trim_punct(s@, with_space),
{
    let mut start: usize = 0;
    while start < s.len() && (s[start] == '.' || s[start] == '_' || (with_space && s[start] == ' '))
        invariant
            start <= s.len(),
            punct_start(s@, 0, with_space) == punct_start(s@, start as int, with_space),
        decreases s.len() - start,
    {
        start = start + 1;
    }
    let mut end = s.len();
    while end > start && (s[end - 1] == '.' || s[end - 1] == '_' || (with_space && s[end - 1]
        == ' '))
        invariant
            start <= end <= s.len(),
            punct_end(s@, start as int, s.len() as int, with_space) == punct_end(
                s@,
                start as int,
                end as int,
                with_space,
            ),
        decreases end,
    {
        end = end - 1;
    }
    slice_chars(s, start, end)
}

/// Splitting `s` at every `sep`, left to right: the finished pieces and the piece being read.
pub open spec fn split_fold(s: Seq<char>, sep: char) -> (Seq<Seq<char>>, Seq<char>)
    decreases s.len(),
{
    if s.len() == 0 {
        (seq![], seq![])
    } else {
        let (done, current) = split_fold(s.drop_last(), sep);
        if s.last() == sep {
            (done.push(current), seq![])
        } else {
            (done, current.push(s.last()))
        }
    }
}

/// `str::split(sep)`: the pieces of `s` between occurrences of `sep` (at least one piece).
pub open spec fn split_on(s: Seq<char>, sep: char) -> Seq<Seq<char>> {
    let (done, current) = split_fold(s, sep);
    done.push(current)
}

/// Splitting a text that holds no separator gives the text alone.
pub proof fn lemma_split_without_separator(s: Seq<char>, sep: char)
    requires
        forall|i: int| 0 <= i < s.len() ==> s[i] != sep,
    ensures
        split_fold(s, sep) == (Seq::<Seq<char>>::empty(), s),
        split_on(s, sep) == seq![s],
    decreases s.len(),
{
    if s.len() > 0 {
        let rest = s.drop_last();
        assert forall|i: int| 0 <= i < rest.len() implies rest[i] != sep by {
            assert(rest[i] == s[i]);
        }
        lemma_split_without_separator(rest, sep);
        assert(rest.push(s.last()) =~= s);
        assert(s.last() != sep);
        assert(split_fold(s, sep).1 == rest.push(s.last()));
        assert(split_fold(s, sep).0 == Seq::<Seq<char>>::empty());
    }
    assert(Seq::<Seq<char>>::empty().push(s) =~= seq![s]);
}

/// A text whose first and last characters are not white space is its own trim.
pub proof fn lemma_trim_without_edge_space(s: Seq<char>)
    requires
        s.len() > 0,
        !is_whitespace(s[0]),
        !is_whitespace(s[s.len() - 1]),
    ensures
        trim(s) == s,
{
    assert(skip_whitespace(s, 0) == 0);
    assert(trim_end_index(s, 0, s.len() as int) == s.len());
    assert(s.subrange(0, s.len() as int) =~= s);
}

/// A one-character pattern matches exactly where that character stands.
pub proof fn lemma_matches_char(s: Seq<char>, j: int, ch: char)
    ensures
        matches_at(s, j, seq![ch]) <==> (0 <= j < s.len() && s[j] == ch),
{
    if 0 <= j < s.len() {
        assert(s.subrange(j, j + 1)[0] == s[j]);
        if s[j] == ch {
            assert(s.subrange(j, j + 1) =~= seq![ch]);
        }
    }
}

/// A pattern whose first character does not occur in `s` is not found in it, and replacing
/// it changes nothing.
pub proof fn lemma_replace_all_absent(s: Seq<char>, pat: Seq<char>, rep: Seq<char>)
    requires
        pat.len() > 0,
        forall|i: int| 0 <= i < s.len() ==> s[i] != pat[0],
    ensures
        find_from(s, pat, 0) is None,
        replace_all(s, pat, rep) == s,
{
    lemma_find_from(s, pat, 0);
    if let Some(i) = find_from(s, pat, 0) {
        assert(s.subrange(i, i + pat.len())[0] == s[i]);
    }
}

/// Splitting `s + l`, where `l` holds no newline: the finished lines of `s`, and its line
/// being read extended by `l`.
pub proof fn lemma_lines_fold_append(s: Seq<char>, l: Seq<char>)
    requires
        forall|i: int| 0 <= i < l.len() ==> l[i] != '\n',
    ensures
        lines_fold(s + l) == (lines_fold(s).0, lines_fold(s).1 + l),
    decreases l.len(),
{
    if l.len() == 0 {
        assert(s + l =~= s);
        assert(lines_fold(s).1 + l =~= lines_fold(s).1);
    } else {
        let r = l.drop_last();
        lemma_lines_fold_append(s, r);
        assert((s + l).drop_last() =~= s + r);
        assert((s + l).last() == l.last());
        assert((lines_fold(s).1 + r).push(l.last()) =~= lines_fold(s).1 + l);
    }
}

/// Splitting `s` followed by a newline: the line being read is finished.
pub proof fn lemma_lines_fold_newline(s: Seq<char>)
    ensures
        lines_fold(s.push('\n')) == (lines_fold(s).0.push(strip_cr(lines_fold(s).1)), Seq::<
            char,
        >::empty()),
{
    assert(s.push('\n').drop_last() =~= s);
}

/// The views of a vector of character vectors.
pub open spec fn views(v: Seq<Vec<char>>) -> Seq<Seq<char>> {
    v.map_values(|x: Vec<char>| x@)
}

/// The pieces of `s` between occurrences of `sep`.
pub fn split_chars(s: &Vec<char>, sep: char) -> (r: Vec<Vec<char>>)
    ensures
        views(r@) == split_on(s@, sep),
{
    let mut done: Vec<Vec<char>> = Vec::new();
    let mut current: Vec<char> = Vec::new();
    let mut k: usize = 0;
    while k < s.len()
        invariant
            k <= s.len(),
            (views(done@), current@) == split_fold(s@.take(k as int), sep),
        decreases s.len() - k,
    {
        assert(s@.take(k + 1).drop_last() =~= s@.take(k as int));
        if s[k] == sep {
            let piece = current;
            current = Vec::new();
            let ghost before = done@;
            done.push(piece);
            assert(views(done@) =~= views(before).push(piece@));
        } else {
            current.push(s[k]);
        }
        k = k + 1;
    }
    assert(s@.take(s.len() as int) =~= s@);
    let ghost before = done@;
    done.push(current);
    assert(views(done@) =~= views(before).push(current@));
    done
}

/// `pieces` joined with `sep` between them.
pub open spec fn join(pieces: Seq<Seq<char>>, sep: Seq<char>) -> Seq<char>
    decreases pieces.len(),
{
    if pieces.len() == 0 {
        seq![]
    } else if pieces.len() == 1 {
        pieces[0]
    } else {
        join(pieces.drop_last(), sep) + sep + pieces.last()
    }
}

/// The pieces joined with `sep` between them.
pub fn join_chars(pieces: &Vec<Vec<char>>, sep: &Vec<char>) -> (r: Vec<char>)
    ensures
        r@ == join(views(pieces@), sep@),
{
    let mut out: Vec<char> = Vec::new();
    let mut k: usize = 0;
    while k < pieces.len()
        invariant
            k <= pieces.len(),
            out@ == join(views(pieces@).take(k as int), sep@),
        decreases pieces.len() - k,
    {
        assert(views(pieces@).take(k + 1).drop_last() =~= views(pieces@).take(k as int));
        if k > 0 {
            push_all(&mut out, sep);
        }
        push_all(&mut out, &pieces[k]);
        k = k + 1;
        proof {
            if k == 1 {
                assert(views(pieces@).take(1) =~= seq![pieces@[0]@]);
                assert(out@ =~= pieces@[0]@);
            }
        }
    }
    assert(views(pieces@).take(pieces.len() as int) =~= views(pieces@));
    out
}

/// Whether `s` begins with `pat`.
pub open spec fn starts_with(s: Seq<char>, pat: Seq<char>) -> bool {
    matches_at(s, 0, pat)
}

/// Two character vectors are equal.
pub fn chars_eq(a: &Vec<char>, b: &Vec<char>) -> (r: bool)
    ensures
        r == (a@ == b@),
{
    if a.len() != b.len() {
        return false;
    }
    let r = matches_at_exec(a, 0, b);
    proof {
        if r {
            assert(a@.subrange(0, b@.len() as int) =~= a@);
        } else {
            assert(a@.subrange(0, b@.len() as int) =~= a@);
        }
    }
    r
}

} // verus!
