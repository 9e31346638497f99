//! Scanning of HTML text: tags, elements found by id, and attributes.
//!
//! Positions are character positions in the text.
use vstd::prelude::*;

use crate::text::{
    ascii_lower, ascii_lower_exec, ascii_lowercase, char_is_whitespace, char_utf8_len, find_char,
    find_chars, find_from, is_whitespace, lemma_find_from, matches_at, matches_at_exec, push_all,
    rfind_before, rfind_char_before, slice_chars, utf8_len, utf8_len_exec, cut, cut_range,
    skip_whitespace, skip_whitespace_exec, lemma_skip_whitespace_bounds, push_range, replace_all,
    replace_all_chars, lemma_find_from_unique, lemma_matches_char,
};

verus! {

/// `<` for an opening tag, `</` for a closing one.
pub open spec fn tag_prefix(closing: bool) -> Seq<char> {
    if closing {
        seq!['<', '/']
    } else {
        seq!['<']
    }
}

/// A character that ends a tag name.
pub open spec fn is_tag_name_end(c: char) -> bool {
    is_whitespace(c) || c == '>' || c == '/'
}

/// `html[position..]` starts with the opening (or closing) tag `tag`, compared without regard
/// to ASCII case. The character that must end the name is looked up at the position that
/// lies as many characters after the name's start as the name has UTF-8 bytes.
pub open spec fn starts_with_tag(h: Seq<char>, pos: int, tag: Seq<char>, closing: bool) -> bool {
    let p = pos + tag_prefix(closing).len();
    &&& matches_at(h, pos, tag_prefix(closing))
    &&& p + tag.len() <= h.len()
    &&& forall|k: int| 0 <= k < tag.len() ==> ascii_lower(#[trigger] h[p + k]) == ascii_lower(tag[k])
    &&& p + utf8_len(tag) < h.len()
    &&& is_tag_name_end(h[p + utf8_len(tag)])
}

fn is_tag_name_end_exec(c: char) -> (r: bool)
    ensures
        r == is_tag_name_end(c),
{
    char_is_whitespace(c) || c == '>' || c == '/'
}

/// Whether the opening (or, with `closing`, the closing) tag `tag` starts at `position`.
pub fn starts_with_tag_at(html: &Vec<char>, position: usize, tag: &Vec<char>, closing: bool) -> (r:
    bool)
    requires
        position <= html.len(),
    ensures
        r == starts_with_tag(html@, position as int, tag@, closing),
{
    let prefix = if closing {
        vec!['<', '/']
    } else {
        vec!['<']
    };
    assert(prefix@ =~= tag_prefix(closing));
    if !matches_at_exec(html, position, &prefix) {
        return false;
    }
    let p = position + prefix.len();
    if tag.len() > html.len() - p {
        return false;
    }
    let mut k: usize = 0;
    while k < tag.len()
        invariant
            p + tag.len() <= html.len(),
            p == position + tag_prefix(closing).len(),
            k <= tag.len(),
            forall|m: int| 0 <= m < k ==> ascii_lower(#[trigger] html@[p + m]) == ascii_lower(tag@[m]),
        decreases tag.len() - k,
    {
        if ascii_lower_exec(html[p + k]) != ascii_lower_exec(tag[k]) {
            assert(!(ascii_lower(html@[p + k as int]) == ascii_lower(tag@[k as int])));
            return false;
        }
        k = k + 1;
    }
    let byte_len = utf8_len_exec(tag);
    if byte_len >= (html.len() - p) as u128 {
        return false;
    }
    is_tag_name_end_exec(html[p + byte_len as usize])
}

/// First position at or after `i` that ends a tag name (or the end of the text).
pub open spec fn tag_name_end(h: Seq<char>, i: int) -> int
    decreases h.len() - i,
{
    if i < 0 || i >= h.len() {
        i
    } else if is_tag_name_end(h[i]) {
        i
    } else {
        tag_name_end(h, i + 1)
    }
}

/// The lower-cased name of the tag that starts at `start`, if it has one.
pub open spec fn tag_name(h: Seq<char>, start: int) -> Option<Seq<char>> {
    let e = tag_name_end(h, start + 1);
    if e > start + 1 {
        Some(ascii_lowercase(h.subrange(start + 1, e)))
    } else {
        None
    }
}

pub proof fn lemma_tag_name_end_bounds(h: Seq<char>, i: int)
    requires
        0 <= i <= h.len(),
    ensures
        i <= tag_name_end(h, i) <= h.len(),
    decreases h.len() - i,
{
    if i < h.len() && !is_tag_name_end(h[i]) {
        lemma_tag_name_end_bounds(h, i + 1);
    }
}

/// The lower-cased tag name after the `<` at `start`.
pub fn tag_name_at(html: &Vec<char>, start: usize) -> (r: Option<Vec<char>>)
    requires
        start < html.len(),
        char_utf8_len(html@[start as int]) == 1,
    ensures
        r matches Some(v) ==> tag_name(html@, start as int) == Some(v@),
        r is None ==> tag_name(html@, start as int) is None,
{
    let mut name: Vec<char> = Vec::new();
    let mut k = start + 1;
    while k < html.len() && !is_tag_name_end_exec(html[k])
        invariant
            start + 1 <= k <= html.len(),
            tag_name_end(html@, start + 1) == tag_name_end(html@, k as int),
            name@ == ascii_lowercase(html@.subrange(start + 1, k as int)),
        decreases html.len() - k,
    {
        name.push(ascii_lower_exec(html[k]));
        k = k + 1;
        assert(ascii_lowercase(html@.subrange(start + 1, k as int)) =~= ascii_lowercase(
            html@.subrange(start + 1, k - 1),
        ).push(ascii_lower(html@[k - 1])));
    }
    if name.len() == 0 {
        None
    } else {
        Some(name)
    }
}

/// The first position at or after `from` where the opening tag `tag` starts.
pub open spec fn first_tag_start(h: Seq<char>, tag: Seq<char>, from: int) -> Option<int>
    decreases h.len() - from,
{
    if from < 0 || from >= h.len() {
        None
    } else if starts_with_tag(h, from, tag, false) {
        Some(from)
    } else {
        first_tag_start(h, tag, from + 1)
    }
}

proof fn lemma_first_tag_start_skip(h: Seq<char>, tag: Seq<char>, from: int, to: int)
    requires
        0 <= from <= to,
        forall|j: int| from <= j < to ==> !starts_with_tag(h, j, tag, false),
    ensures
        first_tag_start(h, tag, from) == first_tag_start(h, tag, to),
    decreases to - from,
{
    if from < to && from < h.len() {
        lemma_first_tag_start_skip(h, tag, from + 1, to);
    }
}

/// The first position where the opening tag `tag` starts.
pub fn find_tag_start(html: &Vec<char>, tag: &Vec<char>) -> (r: Option<usize>)
    ensures
        r matches Some(i) ==> first_tag_start(html@, tag@, 0) == Some(i as int),
        r is None ==> first_tag_start(html@, tag@, 0) is None,
{
    let mut cursor: usize = 0;
    while cursor < html.len()
        invariant
            cursor <= html.len(),
            first_tag_start(html@, tag@, 0) == first_tag_start(html@, tag@, cursor as int),
        decreases html.len() - cursor,
    {
        match find_char(html, '<', cursor) {
            None => {
                proof {
                    lemma_find_from(html@, seq!['<'], cursor as int);
                    lemma_first_tag_start_skip(html@, tag@, cursor as int, html.len() as int);
                }
                return None;
            },
            Some(start) => {
                proof {
                    lemma_find_from(html@, seq!['<'], cursor as int);
                    lemma_first_tag_start_skip(html@, tag@, cursor as int, start as int);
                }
                if starts_with_tag_at(html, start, tag, false) {
                    return Some(start);
                }
                cursor = start + 1;
            },
        }
    }
    None
}

} // verus!

verus! {

/// One past the first `>` at or after `start`.
pub open spec fn open_tag_end(h: Seq<char>, start: int) -> Option<int> {
    match find_from(h, seq!['>'], start) {
        Some(p) => Some(p + 1),
        None => None,
    }
}

/// The tag that spans `start..open_end` (ending in `>`) is written self-closing, with `/>`.
pub open spec fn is_self_closing(h: Seq<char>, start: int, open_end: int) -> bool {
    open_end - start >= 2 && h[open_end - 2] == '/'
}

pub proof fn lemma_open_tag_end(h: Seq<char>, start: int)
    requires
        0 <= start,
    ensures
        open_tag_end(h, start) matches Some(e) ==> start < e <= h.len() && h[e - 1] == '>',
{
    lemma_find_from(h, seq!['>'], start);
    if let Some(p) = find_from(h, seq!['>'], start) {
        assert(h.subrange(p, p + 1)[0] == h[p]);
    }
}

/// Scanning from `cursor` with `depth` open `tag` elements, the end of the element that
/// closes them all: nested opening tags of the same name raise the depth, closing tags
/// lower it.
pub open spec fn matching_end_from(h: Seq<char>, tag: Seq<char>, cursor: int, depth: int) -> Option<
    int,
>
    decreases h.len() - cursor,
{
    if cursor < 0 || cursor > h.len() {
        None
    } else {
        match find_from(h, seq!['<'], cursor) {
            None => None,
            Some(next) => {
                proof {
                    lemma_find_from(h, seq!['<'], cursor);
                    lemma_open_tag_end(h, next);
                }
                if starts_with_tag(h, next, tag, true) {
                    match open_tag_end(h, next) {
                        None => None,
                        Some(close_end) => if depth - 1 == 0 {
                            Some(close_end)
                        } else {
                            matching_end_from(h, tag, close_end, depth - 1)
                        },
                    }
                } else if starts_with_tag(h, next, tag, false) {
                    match open_tag_end(h, next) {
                        None => None,
                        Some(nested_end) => matching_end_from(
                            h,
                            tag,
                            nested_end,
                            if is_self_closing(h, next, nested_end) {
                                depth
                            } else {
                                depth + 1
                            },
                        ),
                    }
                } else {
                    matching_end_from(h, tag, next + 1, depth)
                }
            },
        }
    }
}

/// End of the element whose opening tag `tag` starts at `start`: just after the opening tag
/// when it closes itself, else just after the matching closing tag.
pub open spec fn matching_end(h: Seq<char>, start: int, tag: Seq<char>) -> Option<int> {
    match open_tag_end(h, start) {
        None => None,
        Some(open_end) => if is_self_closing(h, start, open_end) {
            Some(open_end)
        } else {
            matching_end_from(h, tag, open_end, 1)
        },
    }
}

pub proof fn lemma_matching_end_from_bounds(h: Seq<char>, tag: Seq<char>, cursor: int, depth: int)
    requires
        0 <= cursor <= h.len(),
    ensures
        matching_end_from(h, tag, cursor, depth) matches Some(e) ==> cursor < e <= h.len(),
    decreases h.len() - cursor,
{
    lemma_find_from(h, seq!['<'], cursor);
    match find_from(h, seq!['<'], cursor) {
        None => {},
        Some(next) => {
            lemma_open_tag_end(h, next);
            if starts_with_tag(h, next, tag, true) {
                if let Some(close_end) = open_tag_end(h, next) {
                    if depth - 1 != 0 {
                        lemma_matching_end_from_bounds(h, tag, close_end, depth - 1);
                    }
                }
            } else if starts_with_tag(h, next, tag, false) {
                if let Some(nested_end) = open_tag_end(h, next) {
                    lemma_matching_end_from_bounds(
                        h,
                        tag,
                        nested_end,
                        if is_self_closing(h, next, nested_end) {
                            depth
                        } else {
                            depth + 1
                        },
                    );
                }
            } else {
                lemma_matching_end_from_bounds(h, tag, next + 1, depth);
            }
        },
    }
}

pub proof fn lemma_matching_end_bounds(h: Seq<char>, start: int, tag: Seq<char>)
    requires
        0 <= start <= h.len(),
    ensures
        matching_end(h, start, tag) matches Some(e) ==> start < e <= h.len(),
{
    lemma_open_tag_end(h, start);
    if let Some(open_end) = open_tag_end(h, start) {
        if !is_self_closing(h, start, open_end) {
            lemma_matching_end_from_bounds(h, tag, open_end, 1);
        }
    }
}

/// One past the first `>` at or after `start`.
pub fn open_tag_end_exec(html: &Vec<char>, start: usize) -> (r: Option<usize>)
    ensures
        r matches Some(e) ==> open_tag_end(html@, start as int) == Some(e as int),
        r is None ==> open_tag_end(html@, start as int) is None,
{
    proof {
        lemma_open_tag_end(html@, start as int);
        lemma_find_from(html@, seq!['>'], start as int);
    }
    match find_char(html, '>', start) {
        Some(p) => {
            assert(matches_at(html@, p as int, seq!['>']));
            assert(seq!['>'].len() == 1);
            assert(p + 1 <= html@.len());
            assert(p < html.len());
            Some(p + 1)
        },
        None => None,
    }
}

/// End of the element whose opening tag `tag` starts at `start`.
pub fn matching_element_end(html: &Vec<char>, start: usize, tag: &Vec<char>) -> (r: Option<usize>)
    requires
        start <= html.len(),
    ensures
        r matches Some(e) ==> matching_end(html@, start as int, tag@) == Some(e as int),
        r is None ==> matching_end(html@, start as int, tag@) is None,
{
    proof {
        lemma_open_tag_end(html@, start as int);
    }
    let open_end = match open_tag_end_exec(html, start) {
        Some(e) => e,
        None => return None,
    };
    if open_end - start >= 2 && html[open_end - 2] == '/' {
        return Some(open_end);
    }
    let mut depth: usize = 1;
    let mut cursor: usize = open_end;
    while cursor <= html.len()
        invariant
            1 <= depth <= cursor <= html.len(),
            matching_end(html@, start as int, tag@) == matching_end_from(
                html@,
                tag@,
                cursor as int,
                depth as int,
            ),
        decreases html.len() - cursor,
    {
        proof {
            lemma_find_from(html@, seq!['<'], cursor as int);
        }
        let next = match find_char(html, '<', cursor) {
            Some(n) => n,
            None => return None,
        };
        proof {
            lemma_open_tag_end(html@, next as int);
        }
        if starts_with_tag_at(html, next, tag, true) {
            let close_end = match open_tag_end_exec(html, next) {
                Some(e) => e,
                None => return None,
            };
            depth = depth - 1;
            if depth == 0 {
                return Some(close_end);
            }
            cursor = close_end;
        } else if starts_with_tag_at(html, next, tag, false) {
            let nested_end = match open_tag_end_exec(html, next) {
                Some(e) => e,
                None => return None,
            };
            if !(nested_end - next >= 2 && html[nested_end - 2] == '/') {
                depth = depth + 1;
            }
            cursor = nested_end;
        } else {
            cursor = next + 1;
        }
    }
    None
}

/// Where the attribute `id="..."` (or `id='...'`) with value `id` is first written.
pub open spec fn id_position(h: Seq<char>, id: Seq<char>) -> Option<int> {
    match find_from(h, seq!['i', 'd', '=', '"'] + id + seq!['"'], 0) {
        Some(p) => Some(p),
        None => find_from(h, seq!['i', 'd', '=', '\''] + id + seq!['\''], 0),
    }
}

/// Position of the `id` attribute with value `id`.
pub fn find_id_position(html: &Vec<char>, id: &Vec<char>) -> (r: Option<usize>)
    ensures
        r matches Some(p) ==> id_position(html@, id@) == Some(p as int),
        r is None ==> id_position(html@, id@) is None,
{
    let mut double_quoted = vec!['i', 'd', '=', '"'];
    push_all(&mut double_quoted, id);
    double_quoted.push('"');
    assert(double_quoted@ =~= seq!['i', 'd', '=', '"'] + id@ + seq!['"']);
    if let Some(p) = find_chars(html, &double_quoted, 0) {
        return Some(p);
    }
    let mut single_quoted = vec!['i', 'd', '=', '\''];
    push_all(&mut single_quoted, id);
    single_quoted.push('\'');
    assert(single_quoted@ =~= seq!['i', 'd', '=', '\''] + id@ + seq!['\'']);
    find_chars(html, &single_quoted, 0)
}

/// The element that carries the attribute `id`: its start, its end and its tag name.
pub open spec fn element_range(h: Seq<char>, id: Seq<char>) -> Option<(int, int, Seq<char>)> {
    match id_position(h, id) {
        None => None,
        Some(idp) => match rfind_before(h, '<', idp) {
            None => None,
            Some(start) => match tag_name(h, start) {
                None => None,
                Some(tag) => match matching_end(h, start, tag) {
                    Some(end) => Some((start, end, tag)),
                    None => match open_tag_end(h, start) {
                        Some(end) => Some((start, end, tag)),
                        None => None,
                    },
                },
            },
        },
    }
}

pub proof fn lemma_rfind_before(s: Seq<char>, c: char, end: int)
    requires
        end <= s.len(),
    ensures
        rfind_before(s, c, end) matches Some(i) ==> 0 <= i < end && s[i] == c,
    decreases end,
{
    if end > 0 && s[end - 1] != c {
        lemma_rfind_before(s, c, end - 1);
    }
}

pub proof fn lemma_element_range_bounds(h: Seq<char>, id: Seq<char>)
    ensures
        element_range(h, id) matches Some((s, e, _)) ==> 0 <= s < e <= h.len(),
{
    lemma_find_from(h, seq!['i', 'd', '=', '"'] + id + seq!['"'], 0);
    lemma_find_from(h, seq!['i', 'd', '=', '\''] + id + seq!['\''], 0);
    if let Some(idp) = id_position(h, id) {
        lemma_rfind_before(h, '<', idp);
        if let Some(start) = rfind_before(h, '<', idp) {
            lemma_matching_end_bounds(h, start, tag_name(h, start)->0);
            lemma_open_tag_end(h, start);
        }
    }
}

/// The element that carries the attribute `id`.
pub fn element_range_by_id(html: &Vec<char>, id: &Vec<char>) -> (r: Option<
    (usize, usize, Vec<char>),
>)
    ensures
        r matches Some((s, e, t)) ==> element_range(html@, id@) == Some(
            (s as int, e as int, t@),
        ),
        r is None ==> element_range(html@, id@) is None,
{
    proof {
        lemma_find_from(html@, seq!['i', 'd', '=', '"'] + id@ + seq!['"'], 0);
        lemma_find_from(html@, seq!['i', 'd', '=', '\''] + id@ + seq!['\''], 0);
    }
    let id_pos = find_id_position(html, id)?;
    proof {
        lemma_rfind_before(html@, '<', id_pos as int);
    }
    let start = rfind_char_before(html, '<', id_pos)?;
    let tag = tag_name_at(html, start)?;
    match matching_element_end(html, start, &tag) {
        Some(end) => Some((start, end, tag)),
        None => match open_tag_end_exec(html, start) {
            Some(end) => Some((start, end, tag)),
            None => None,
        },
    }
}

/// The text of the element that carries the attribute `id`.
pub open spec fn extract_element(h: Seq<char>, id: Seq<char>) -> Option<Seq<char>> {
    match element_range(h, id) {
        Some((s, e, _)) => Some(h.subrange(s, e)),
        None => None,
    }
}

/// The text of the element that carries the attribute `id`, if there is one.
pub fn extract_element_by_id(html: &Vec<char>, id: &Vec<char>) -> (r: Option<Vec<char>>)
    ensures
        r matches Some(v) ==> extract_element(html@, id@) == Some(v@),
        r is None ==> extract_element(html@, id@) is None,
{
    proof {
        lemma_element_range_bounds(html@, id@);
    }
    let (start, end, _tag) = element_range_by_id(html, id)?;
    Some(slice_chars(html, start, end))
}

} // verus!

verus! {

pub proof fn lemma_first_tag_start_bounds(h: Seq<char>, tag: Seq<char>, from: int)
    requires
        0 <= from,
    ensures
        first_tag_start(h, tag, from) matches Some(i) ==> from <= i < h.len(),
    decreases h.len() - from,
{
    if from < h.len() && !starts_with_tag(h, from, tag, false) {
        lemma_first_tag_start_bounds(h, tag, from + 1);
    }
}

/// Where the element whose opening tag starts at `start` ends, for removal: its matching end,
/// else the end of its opening tag, else the end of the text.
pub open spec fn removal_end(h: Seq<char>, start: int, tag: Seq<char>) -> int {
    match matching_end(h, start, tag) {
        Some(e) => e,
        None => match open_tag_end(h, start) {
            Some(e) => e,
            None => h.len() as int,
        },
    }
}

/// `h` with every element whose tag is `tag` taken out, first one first.
pub open spec fn without_tag_elements(h: Seq<char>, tag: Seq<char>) -> Seq<char>
    decreases h.len(),
{
    match first_tag_start(h, tag, 0) {
        None => h,
        Some(start) => {
            proof {
                lemma_first_tag_start_bounds(h, tag, 0);
                lemma_matching_end_bounds(h, start, tag);
                lemma_open_tag_end(h, start);
            }
            without_tag_elements(cut(h, start, removal_end(h, start, tag)), tag)
        },
    }
}

/// `html` with every `tag` element (opening tag to matching closing tag) removed.
pub fn remove_element_by_tag(html: &Vec<char>, tag: &Vec<char>) -> (r: Vec<char>)
    ensures
        r@ == without_tag_elements(html@, tag@),
{
    let mut output = slice_chars(html, 0, html.len());
    proof {
        assert(output@ =~= html@);
    }
    loop
        invariant
            without_tag_elements(output@, tag@) == without_tag_elements(html@, tag@),
        decreases output.len(),
    {
        let start = match find_tag_start(&output, tag) {
            Some(s) => s,
            None => return output,
        };
        proof {
            lemma_first_tag_start_bounds(output@, tag@, 0);
            lemma_matching_end_bounds(output@, start as int, tag@);
            lemma_open_tag_end(output@, start as int);
        }
        let end = match matching_element_end(&output, start, tag) {
            Some(e) => e,
            None => match open_tag_end_exec(&output, start) {
                Some(e) => e,
                None => output.len(),
            },
        };
        output = cut_range(&output, start, end);
    }
}

/// `h` with every element carrying the attribute `id` taken out, first one first.
pub open spec fn without_id_elements(h: Seq<char>, id: Seq<char>) -> Seq<char>
    decreases h.len(),
{
    match element_range(h, id) {
        None => h,
        Some((start, end, _)) => {
            proof {
                lemma_element_range_bounds(h, id);
            }
            without_id_elements(cut(h, start, end), id)
        },
    }
}

/// `html` with every element that carries the attribute `id` removed.
pub fn remove_element_by_id(html: &Vec<char>, id: &Vec<char>) -> (r: Vec<char>)
    ensures
        r@ == without_id_elements(html@, id@),
{
    let mut output = slice_chars(html, 0, html.len());
    proof {
        assert(output@ =~= html@);
    }
    loop
        invariant
            without_id_elements(output@, id@) == without_id_elements(html@, id@),
        decreases output.len(),
    {
        proof {
            lemma_element_range_bounds(output@, id@);
        }
        match element_range_by_id(&output, id) {
            None => return output,
            Some((start, end, _tag)) => {
                output = cut_range(&output, start, end);
            },
        }
    }
}

/// A character that ends an unquoted attribute value.
pub open spec fn is_value_end(c: char) -> bool {
    is_whitespace(c) || c == '>' || c == '/'
}

/// First position at or after `i` that ends an unquoted attribute value (or the end).
pub open spec fn value_scan_end(s: Seq<char>, i: int) -> int
    decreases s.len() - i,
{
    if i < 0 || i >= s.len() {
        i
    } else if is_value_end(s[i]) {
        i
    } else {
        value_scan_end(s, i + 1)
    }
}

pub proof fn lemma_value_scan_end_bounds(s: Seq<char>, i: int)
    requires
        0 <= i <= s.len(),
    ensures
        i <= value_scan_end(s, i) <= s.len(),
    decreases s.len() - i,
{
    if i < s.len() && !is_value_end(s[i]) {
        lemma_value_scan_end_bounds(s, i + 1);
    }
}

/// The first well-formed occurrence of the attribute `attr` in the tag text `t`, searching
/// from `cursor`: the range to cut out to remove it (with the white space before it) and its
/// value. A name counts only with white space or `<` before it and white space or `=` after
/// it, followed (after optional white space) by `=`.
pub open spec fn attribute_range_from(t: Seq<char>, attr: Seq<char>, cursor: int) -> Option<
    (int, int, Seq<char>),
>
    decreases t.len() - cursor,
{
    if cursor < 0 || cursor >= t.len() || attr.len() == 0 {
        None
    } else {
        match find_from(t, attr, cursor) {
            None => None,
            Some(name_start) => {
                proof {
                    lemma_find_from(t, attr, cursor);
                }
                let name_end = name_start + attr.len();
                let valid_before = name_start > 0 && (is_whitespace(t[name_start - 1]) || t[name_start
                    - 1] == '<');
                let valid_after = name_end < t.len() && (is_whitespace(t[name_end]) || t[name_end]
                    == '=');
                let eq = skip_whitespace(t, name_end);
                if !valid_before || !valid_after || !(eq < t.len() && t[eq] == '=') {
                    attribute_range_from(t, attr, name_end)
                } else {
                    let vs = skip_whitespace(t, eq + 1);
                    let remove_start = if is_whitespace(t[name_start - 1]) {
                        name_start - 1
                    } else {
                        name_start
                    };
                    if vs >= t.len() {
                        None
                    } else if t[vs] == '"' || t[vs] == '\'' {
                        match find_from(t, seq![t[vs]], vs + 1) {
                            None => None,
                            Some(ce) => Some((remove_start, ce + 1, t.subrange(vs + 1, ce))),
                        }
                    } else {
                        let ce = value_scan_end(t, vs);
                        Some((remove_start, ce, t.subrange(vs, ce)))
                    }
                }
            },
        }
    }
}

/// The first well-formed occurrence of the attribute `attr` in the tag text `t`.
pub open spec fn attribute_range(t: Seq<char>, attr: Seq<char>) -> Option<(int, int, Seq<char>)> {
    attribute_range_from(t, attr, 0)
}

pub proof fn lemma_attribute_range_from_bounds(t: Seq<char>, attr: Seq<char>, cursor: int)
    requires
        0 <= cursor,
    ensures
        attribute_range_from(t, attr, cursor) matches Some((s, e, _)) ==> 0 <= s < e <= t.len(),
    decreases t.len() - cursor,
{
    if cursor < t.len() && attr.len() > 0 {
        lemma_find_from(t, attr, cursor);
        if let Some(name_start) = find_from(t, attr, cursor) {
            let name_end = name_start + attr.len();
            lemma_skip_whitespace_bounds(t, name_end);
            let eq = skip_whitespace(t, name_end);
            let valid_before = name_start > 0 && (is_whitespace(t[name_start - 1]) || t[name_start
                - 1] == '<');
            let valid_after = name_end < t.len() && (is_whitespace(t[name_end]) || t[name_end]
                == '=');
            if !valid_before || !valid_after || !(eq < t.len() && t[eq] == '=') {
                lemma_attribute_range_from_bounds(t, attr, name_end);
            } else {
                lemma_skip_whitespace_bounds(t, eq + 1);
                let vs = skip_whitespace(t, eq + 1);
                if vs < t.len() {
                    lemma_find_from(t, seq![t[vs]], vs + 1);
                    lemma_value_scan_end_bounds(t, vs);
                }
            }
        }
    }
}

/// The attribute `attribute` in `tag`: the range that removes it and its value.
pub fn find_attribute_range(tag: &Vec<char>, attribute: &Vec<char>) -> (r: Option<
    (usize, usize, Vec<char>),
>)
    requires
        attribute.len() > 0,
    ensures
        r matches Some((s, e, v)) ==> attribute_range(tag@, attribute@) == Some(
            (s as int, e as int, v@),
        ),
        r is None ==> attribute_range(tag@, attribute@) is None,
{
    let mut cursor: usize = 0;
    while cursor < tag.len()
        invariant
            attribute.len() > 0,
            cursor <= tag.len(),
            attribute_range(tag@, attribute@) == attribute_range_from(
                tag@,
                attribute@,
                cursor as int,
            ),
        decreases tag.len() - cursor,
    {
        proof {
            lemma_find_from(tag@, attribute@, cursor as int);
        }
        let name_start = match find_chars(tag, attribute, cursor) {
            Some(p) => p,
            None => return None,
        };
        let name_end = name_start + attribute.len();
        let valid_before = name_start > 0 && (char_is_whitespace(tag[name_start - 1]) || tag[name_start
            - 1] == '<');
        let valid_after = name_end < tag.len() && (char_is_whitespace(tag[name_end]) || tag[name_end]
            == '=');
        let eq = skip_whitespace_exec(tag, name_end);
        if !valid_before || !valid_after || !(eq < tag.len() && tag[eq] == '=') {
            cursor = name_end;
        } else {
            let value_start = skip_whitespace_exec(tag, eq + 1);
            let remove_start = if char_is_whitespace(tag[name_start - 1]) {
                name_start - 1
            } else {
                name_start
            };
            if value_start >= tag.len() {
                return None;
            }
            let quote = tag[value_start];
            if quote == '"' || quote == '\'' {
                proof {
                    lemma_find_from(tag@, seq![quote], value_start + 1);
                }
                match find_char(tag, quote, value_start + 1) {
                    None => return None,
                    Some(content_end) => {
                        assert(matches_at(tag@, content_end as int, seq![quote]));
                        assert(seq![quote].len() == 1);
                        assert(content_end < tag.len());
                        return Some(
                            (
                                remove_start,
                                content_end + 1,
                                slice_chars(tag, value_start + 1, content_end),
                            ),
                        );
                    },
                }
            } else {
                let mut content_end = value_start;
                while content_end < tag.len() && !(char_is_whitespace(tag[content_end])
                    || tag[content_end] == '>' || tag[content_end] == '/')
                    invariant
                        value_start <= content_end <= tag.len(),
                        value_scan_end(tag@, value_start as int) == value_scan_end(
                            tag@,
                            content_end as int,
                        ),
                    decreases tag.len() - content_end,
                {
                    content_end = content_end + 1;
                }
                return Some((remove_start, content_end, slice_chars(tag, value_start, content_end)));
            }
        }
    }
    None
}

/// The value of the attribute `attribute` in the tag text `tag`.
pub open spec fn attribute_of(t: Seq<char>, attr: Seq<char>) -> Option<Seq<char>> {
    match attribute_range(t, attr) {
        Some((_, _, v)) => Some(v),
        None => None,
    }
}

/// The value of the attribute `attribute` in `tag`.
pub fn attribute_value(tag: &Vec<char>, attribute: &Vec<char>) -> (r: Option<Vec<char>>)
    requires
        attribute.len() > 0,
    ensures
        r matches Some(v) ==> attribute_of(tag@, attribute@) == Some(v@),
        r is None ==> attribute_of(tag@, attribute@) is None,
{
    match find_attribute_range(tag, attribute) {
        Some((_, _, value)) => Some(value),
        None => None,
    }
}

/// `t` with every occurrence of the attribute `attr` taken out, first one first.
pub open spec fn without_attribute(t: Seq<char>, attr: Seq<char>) -> Seq<char>
    decreases t.len(),
{
    match attribute_range(t, attr) {
        None => t,
        Some((s, e, _)) => {
            proof {
                lemma_attribute_range_from_bounds(t, attr, 0);
            }
            without_attribute(cut(t, s, e), attr)
        },
    }
}

/// `tag` with every occurrence of the attribute `attribute` removed.
pub fn remove_attribute(tag: &Vec<char>, attribute: &Vec<char>) -> (r: Vec<char>)
    requires
        attribute.len() > 0,
    ensures
        r@ == without_attribute(tag@, attribute@),
{
    let mut output = slice_chars(tag, 0, tag.len());
    proof {
        assert(output@ =~= tag@);
    }
    loop
        invariant
            attribute.len() > 0,
            without_attribute(output@, attribute@) == without_attribute(tag@, attribute@),
        decreases output.len(),
    {
        proof {
            lemma_attribute_range_from_bounds(output@, attribute@, 0);
        }
        match find_attribute_range(&output, attribute) {
            None => return output,
            Some((start, end, _value)) => {
                output = cut_range(&output, start, end);
            },
        }
    }
}

} // verus!

verus! {

/// `h` with the attribute `attr` removed from the opening tag of the element that carries
/// the attribute `id`.
pub open spec fn without_element_attribute(h: Seq<char>, id: Seq<char>, attr: Seq<char>) -> Seq<
    char,
> {
    match element_range(h, id) {
        None => h,
        Some((start, _, _)) => match open_tag_end(h, start) {
            None => h,
            Some(open_end) => h.subrange(0, start) + without_attribute(
                h.subrange(start, open_end),
                attr,
            ) + h.subrange(open_end, h.len() as int),
        },
    }
}

/// Removes the attribute `attribute` from the opening tag of the element carrying `id`.
pub fn remove_attribute_from_element_by_id(html: &Vec<char>, id: &Vec<char>, attribute: &Vec<char>) -> (r:
    Vec<char>)
    requires
        attribute.len() > 0,
    ensures
        r@ == without_element_attribute(html@, id@, attribute@),
{
    proof {
        lemma_element_range_bounds(html@, id@);
    }
    let start = match element_range_by_id(html, id) {
        Some((s, _e, _t)) => s,
        None => return slice_chars(html, 0, html.len()),
    };
    proof {
        lemma_open_tag_end(html@, start as int);
    }
    let open_end = match open_tag_end_exec(html, start) {
        Some(e) => e,
        None => {
            let r = slice_chars(html, 0, html.len());
            assert(r@ =~= html@);
            return r;
        },
    };
    let mut output = slice_chars(html, 0, start);
    let open_tag = slice_chars(html, start, open_end);
    let cleaned = remove_attribute(&open_tag, attribute);
    push_all(&mut output, &cleaned);
    push_range(&mut output, html, open_end, html.len());
    output
}

/// The HTML escape of one character in an attribute value.
pub open spec fn escape_char(c: char) -> Seq<char> {
    if c == '&' {
        seq!['&', 'a', 'm', 'p', ';']
    } else if c == '"' {
        seq!['&', 'q', 'u', 'o', 't', ';']
    } else if c == '<' {
        seq!['&', 'l', 't', ';']
    } else if c == '>' {
        seq!['&', 'g', 't', ';']
    } else {
        seq![c]
    }
}

/// `s` escaped for a double-quoted attribute value: `&`, `"`, `<` and `>` become entities.
pub open spec fn escape_attribute(s: Seq<char>) -> Seq<char>
    decreases s.len(),
{
    if s.len() == 0 {
        seq![]
    } else {
        escape_attribute(s.drop_last()) + escape_char(s.last())
    }
}

/// `value` escaped for a double-quoted attribute value.
pub fn escape_html_attribute(value: &Vec<char>) -> (r: Vec<char>)
    ensures
        r@ == escape_attribute(value@),
{
    let mut out: Vec<char> = Vec::new();
    let mut k: usize = 0;
    while k < value.len()
        invariant
            k <= value.len(),
            out@ == escape_attribute(value@.take(k as int)),
        decreases value.len() - k,
    {
        let c = value[k];
        let piece: Vec<char> = if c == '&' {
            vec!['&', 'a', 'm', 'p', ';']
        } else if c == '"' {
            vec!['&', 'q', 'u', 'o', 't', ';']
        } else if c == '<' {
            vec!['&', 'l', 't', ';']
        } else if c == '>' {
            vec!['&', 'g', 't', ';']
        } else {
            vec![c]
        };
        assert(piece@ =~= escape_char(c));
        push_all(&mut out, &piece);
        assert(value@.take(k + 1).drop_last() =~= value@.take(k as int));
        k = k + 1;
    }
    assert(value@.take(value.len() as int) =~= value@);
    out
}

/// The attribute text ` attr="escaped value"`.
pub open spec fn attribute_text(attr: Seq<char>, value: Seq<char>) -> Seq<char> {
    seq![' '] + attr + seq!['=', '"'] + escape_attribute(value) + seq!['"']
}

/// The last position at or before `i` where `pat` occurs.
pub open spec fn last_match(s: Seq<char>, pat: Seq<char>, i: int) -> Option<int>
    decreases i + 1,
{
    if i < 0 {
        None
    } else if matches_at(s, i, pat) {
        Some(i)
    } else {
        last_match(s, pat, i - 1)
    }
}

/// `t` with ` attr="value"` inserted before its last `/>`, else before its last `>`.
pub open spec fn with_attribute(t: Seq<char>, attr: Seq<char>, value: Seq<char>) -> Seq<char> {
    match last_match(t, seq!['/', '>'], t.len() - 2) {
        Some(p) => t.subrange(0, p) + attribute_text(attr, value) + t.subrange(p, t.len() as int),
        None => match last_match(t, seq!['>'], t.len() - 1) {
            Some(p) => t.subrange(0, p) + attribute_text(attr, value) + t.subrange(p, t.len() as int),
            None => t,
        },
    }
}

pub proof fn lemma_last_match_bounds(s: Seq<char>, pat: Seq<char>, i: int)
    ensures
        last_match(s, pat, i) matches Some(p) ==> 0 <= p <= i && matches_at(s, p, pat),
    decreases i + 1,
{
    if i >= 0 && !matches_at(s, i, pat) {
        lemma_last_match_bounds(s, pat, i - 1);
    }
}

fn last_match_exec(s: &Vec<char>, pat: &Vec<char>) -> (r: Option<usize>)
    requires
        1 <= pat.len() <= s.len(),
    ensures
        r matches Some(p) ==> last_match(s@, pat@, s.len() - pat.len()) == Some(p as int),
        r is None ==> last_match(s@, pat@, s.len() - pat.len()) is None,
{
    let mut i: usize = s.len() - pat.len() + 1;
    while i > 0
        invariant
            i <= s.len() - pat.len() + 1,
            last_match(s@, pat@, s.len() - pat.len()) == last_match(s@, pat@, i - 1),
        decreases i,
    {
        if matches_at_exec(s, i - 1, pat) {
            return Some(i - 1);
        }
        i = i - 1;
    }
    None
}

/// `tag` with the attribute `attribute="value"` (value escaped) inserted before its end.
pub fn insert_attribute(tag: &Vec<char>, attribute: &Vec<char>, value: &Vec<char>) -> (r: Vec<char>)
    ensures
        r@ == with_attribute(tag@, attribute@, value@),
{
    let escaped = escape_html_attribute(value);
    let mut insertion = vec![' '];
    push_all(&mut insertion, attribute);
    insertion.push('=');
    insertion.push('"');
    push_all(&mut insertion, &escaped);
    insertion.push('"');
    assert(insertion@ =~= attribute_text(attribute@, value@));
    let self_closing = vec!['/', '>'];
    let close = vec!['>'];
    proof {
        lemma_last_match_bounds(tag@, seq!['/', '>'], tag.len() - 2);
        lemma_last_match_bounds(tag@, seq!['>'], tag.len() - 1);
        assert(self_closing@ =~= seq!['/', '>']);
        assert(close@ =~= seq!['>']);
    }
    let position = if tag.len() >= 2 {
        last_match_exec(tag, &self_closing)
    } else {
        assert(last_match(tag@, seq!['/', '>'], tag.len() - 2) is None);
        None
    };
    let position = match position {
        Some(p) => Some(p),
        None => if tag.len() >= 1 {
            last_match_exec(tag, &close)
        } else {
            None
        },
    };
    match position {
        Some(p) => {
            let mut out = slice_chars(tag, 0, p);
            push_all(&mut out, &insertion);
            push_range(&mut out, tag, p, tag.len());
            out
        },
        None => slice_chars(tag, 0, tag.len()),
    }
}

} // verus!

verus! {

/// Removing tags from `s`, left to right: the text kept so far and whether a tag is open.
pub open spec fn strip_tags_fold(s: Seq<char>) -> (Seq<char>, bool)
    decreases s.len(),
{
    if s.len() == 0 {
        (seq![], false)
    } else {
        let (out, in_tag) = strip_tags_fold(s.drop_last());
        let c = s.last();
        if c == '<' {
            (out, true)
        } else if c == '>' {
            (out, false)
        } else if !in_tag {
            (out.push(c), in_tag)
        } else {
            (out, in_tag)
        }
    }
}

/// `s` without anything from a `<` up to the next `>`.
pub open spec fn without_tags(s: Seq<char>) -> Seq<char> {
    strip_tags_fold(s).0
}

/// `html` without its tags.
pub fn strip_tags(html: &Vec<char>) -> (r: Vec<char>)
    ensures
        r@ == without_tags(html@),
{
    let mut output: Vec<char> = Vec::new();
    let mut in_tag = false;
    let mut k: usize = 0;
    while k < html.len()
        invariant
            k <= html.len(),
            (output@, in_tag) == strip_tags_fold(html@.take(k as int)),
        decreases html.len() - k,
    {
        let c = html[k];
        assert(html@.take(k + 1).drop_last() =~= html@.take(k as int));
        if c == '<' {
            in_tag = true;
        } else if c == '>' {
            in_tag = false;
        } else if !in_tag {
            output.push(c);
        }
        k = k + 1;
    }
    assert(html@.take(html.len() as int) =~= html@);
    output
}

/// The entities that `decode_html_entities` turns back into characters, in the order it does.
pub open spec fn decode_entities(s: Seq<char>) -> Seq<char> {
    let s1 = replace_all(s, seq!['&', 'n', 'b', 's', 'p', ';'], seq![' ']);
    let s2 = replace_all(s1, seq!['&', 'a', 'm', 'p', ';'], seq!['&']);
    let s3 = replace_all(s2, seq!['&', 'l', 't', ';'], seq!['<']);
    let s4 = replace_all(s3, seq!['&', 'g', 't', ';'], seq!['>']);
    let s5 = replace_all(s4, seq!['&', 'q', 'u', 'o', 't', ';'], seq!['"']);
    replace_all(s5, seq!['&', '#', '3', '9', ';'], seq!['\''])
}

fn replace_literal(s: &Vec<char>, pat: Vec<char>, rep: Vec<char>) -> (r: Vec<char>)
    requires
        pat.len() > 0,
    ensures
        r@ == replace_all(s@, pat@, rep@),
{
    replace_all_chars(s, &pat, &rep)
}

/// `value` with `&nbsp;`, `&amp;`, `&lt;`, `&gt;`, `&quot;` and `&#39;` replaced, one after the
/// other.
pub fn decode_html_entities(value: &Vec<char>) -> (r: Vec<char>)
    ensures
        r@ == decode_entities(value@),
{
    let p1 = vec!['&', 'n', 'b', 's', 'p', ';'];
    let p2 = vec!['&', 'a', 'm', 'p', ';'];
    let p3 = vec!['&', 'l', 't', ';'];
    let p4 = vec!['&', 'g', 't', ';'];
    let p5 = vec!['&', 'q', 'u', 'o', 't', ';'];
    let p6 = vec!['&', '#', '3', '9', ';'];
    let r1 = vec![' '];
    let r2 = vec!['&'];
    let r3 = vec!['<'];
    let r4 = vec!['>'];
    let r5 = vec!['"'];
    let r6 = vec!['\''];
    assert(p1@ =~= seq!['&', 'n', 'b', 's', 'p', ';'] && r1@ =~= seq![' ']);
    assert(p2@ =~= seq!['&', 'a', 'm', 'p', ';'] && r2@ =~= seq!['&']);
    assert(p3@ =~= seq!['&', 'l', 't', ';'] && r3@ =~= seq!['<']);
    assert(p4@ =~= seq!['&', 'g', 't', ';'] && r4@ =~= seq!['>']);
    assert(p5@ =~= seq!['&', 'q', 'u', 'o', 't', ';'] && r5@ =~= seq!['"']);
    assert(p6@ =~= seq!['&', '#', '3', '9', ';'] && r6@ =~= seq!['\'']);
    let s1 = replace_literal(value, p1, r1);
    let s2 = replace_literal(&s1, p2, r2);
    let s3 = replace_literal(&s2, p3, r3);
    let s4 = replace_literal(&s3, p4, r4);
    let s5 = replace_literal(&s4, p5, r5);
    replace_literal(&s5, p6, r6)
}

/// Rewriting from `cursor`: every tag (from `<` to the next `>`) that opens or closes a `tag`
/// element becomes a newline; a `<` with no `>` after it ends the scan.
pub open spec fn tag_boundaries_from(h: Seq<char>, tag: Seq<char>, cursor: int) -> Seq<char>
    decreases h.len() - cursor,
{
    if cursor < 0 || cursor > h.len() {
        seq![]
    } else {
        match find_from(h, seq!['<'], cursor) {
            None => h.subrange(cursor, h.len() as int),
            Some(start) => match open_tag_end(h, start) {
                None => h.subrange(cursor, h.len() as int),
                Some(end) => {
                    proof {
                        lemma_find_from(h, seq!['<'], cursor);
                        lemma_open_tag_end(h, start);
                    }
                    h.subrange(cursor, start) + (if starts_with_tag(h, start, tag, false)
                        || starts_with_tag(h, start, tag, true) {
                        seq!['\n']
                    } else {
                        h.subrange(start, end)
                    }) + tag_boundaries_from(h, tag, end)
                },
            },
        }
    }
}

/// `html` with the opening and closing tags of `tag` elements replaced by newlines.
pub fn replace_tag_boundaries(html: &Vec<char>, tag: &Vec<char>) -> (r: Vec<char>)
    ensures
        r@ == tag_boundaries_from(html@, tag@, 0),
{
    let mut output: Vec<char> = Vec::new();
    let mut cursor: usize = 0;
    while cursor <= html.len()
        invariant
            cursor <= html.len(),
            output@ + tag_boundaries_from(html@, tag@, cursor as int) == tag_boundaries_from(
                html@,
                tag@,
                0,
            ),
        decreases html.len() - cursor,
    {
        proof {
            lemma_find_from(html@, seq!['<'], cursor as int);
        }
        let start = match find_char(html, '<', cursor) {
            Some(s) => s,
            None => {
                push_range(&mut output, html, cursor, html.len());
                return output;
            },
        };
        proof {
            lemma_open_tag_end(html@, start as int);
        }
        let end = match open_tag_end_exec(html, start) {
            Some(e) => e,
            None => {
                push_range(&mut output, html, cursor, html.len());
                return output;
            },
        };
        let ghost before = output@;
        push_range(&mut output, html, cursor, start);
        if starts_with_tag_at(html, start, tag, false) || starts_with_tag_at(html, start, tag, true) {
            output.push('\n');
        } else {
            push_range(&mut output, html, start, end);
        }
        proof {
            assert(output@ + tag_boundaries_from(html@, tag@, end as int) =~= before
                + tag_boundaries_from(html@, tag@, cursor as int));
        }
        cursor = end;
    }
    output
}

} // verus!

verus! {

/// `t` is a non-empty run of lower-case ASCII letters, as the tag names this library looks
/// for are.
pub open spec fn is_lower_name(t: Seq<char>) -> bool {
    t.len() > 0 && forall|k: int| 0 <= k < t.len() ==> 'a' <= #[trigger] t[k] && t[k] <= 'z'
}

/// The tag `<t>`, or with `closing` the tag `</t>`.
pub open spec fn tag_text(t: Seq<char>, closing: bool) -> Seq<char> {
    tag_prefix(closing) + t + seq!['>']
}

/// Lower-case ASCII letters take one UTF-8 byte each.
pub proof fn lemma_lower_letters_utf8_len(t: Seq<char>)
    requires
        forall|k: int| 0 <= k < t.len() ==> 'a' <= #[trigger] t[k] && t[k] <= 'z',
    ensures
        utf8_len(t) == t.len(),
    decreases t.len(),
{
    if t.len() > 0 {
        let r = t.drop_last();
        assert forall|k: int| 0 <= k < r.len() implies 'a' <= #[trigger] r[k] && r[k] <= 'z' by {
            assert(r[k] == t[k]);
        }
        lemma_lower_letters_utf8_len(r);
        assert('a' <= t[t.len() - 1] && t[t.len() - 1] <= 'z');
    }
}

/// Where the tag `tag_text(t, closing)` is written, the tag `u` starts there (opening or
/// closing as written) exactly when `u` is `t`, and never the other way.
pub proof fn lemma_tag_at(h: Seq<char>, s: int, t: Seq<char>, closing: bool, u: Seq<char>)
    requires
        is_lower_name(t),
        is_lower_name(u),
        0 <= s,
        s + tag_text(t, closing).len() <= h.len(),
        h.subrange(s, s + tag_text(t, closing).len()) == tag_text(t, closing),
    ensures
        starts_with_tag(h, s, u, closing) == (u == t),
        !starts_with_tag(h, s, u, !closing),
{
    let pre = tag_prefix(closing);
    let tt = tag_text(t, closing);
    let p = s + pre.len();
    lemma_lower_letters_utf8_len(t);
    lemma_lower_letters_utf8_len(u);
    assert forall|k: int| 0 <= k < tt.len() implies h[s + k] == #[trigger] tt[k] by {
        assert(h.subrange(s, s + tt.len())[k] == h[s + k]);
    }
    assert(h[s] == tt[0]);
    assert(h[s] == '<');
    assert(h.subrange(s, s + pre.len()) =~= pre) by {
        assert forall|k: int| 0 <= k < pre.len() implies h.subrange(s, s + pre.len())[k]
            == pre[k] by {
            assert(h[s + k] == tt[k]);
        }
    }
    assert forall|k: int| 0 <= k < t.len() implies h[p + k] == #[trigger] t[k] by {
        assert(h[s + (pre.len() + k)] == tt[pre.len() + k]);
    }
    assert(h[p + t.len()] == '>') by {
        assert(h[s + (pre.len() + t.len())] == tt[(pre.len() + t.len()) as int]);
    }
    if u == t {
        assert(starts_with_tag(h, s, u, closing));
    }
    if starts_with_tag(h, s, u, closing) {
        if u.len() < t.len() {
            assert(h[p + u.len()] == t[u.len() as int]);
            assert('a' <= t[u.len() as int]);
        } else if u.len() > t.len() {
            assert(ascii_lower(h[p + t.len()]) == ascii_lower(u[t.len() as int]));
            assert('a' <= u[t.len() as int]);
        } else {
            assert forall|k: int| 0 <= k < t.len() implies u[k] == t[k] by {
                assert(ascii_lower(h[p + k]) == ascii_lower(u[k]));
                assert('a' <= u[k] && u[k] <= 'z');
                assert('a' <= t[k] && t[k] <= 'z');
            }
            assert(u =~= t);
        }
    }
    if closing {
        assert(h[s + 1] == '/') by {
            assert(tt[1] == '/');
        }
        if starts_with_tag(h, s, u, false) {
            assert(ascii_lower(h[s + 1 + 0]) == ascii_lower(u[0]));
            assert('a' <= u[0]);
        }
    } else {
        assert(h[s + 1] == t[0]);
        assert('a' <= t[0]);
        if matches_at(h, s, seq!['<', '/']) {
            assert(h.subrange(s, s + 2)[1] == h[s + 1]);
        }
    }
}

/// The pass for `tag` over a text with a `<` at `s` and the first `>` after it at `g`: the
/// text up to `s` is copied, the tag `s..=g` rewritten, and the pass goes on after it.
pub proof fn lemma_tag_boundaries_step(h: Seq<char>, tag: Seq<char>, c: int, s: int, g: int)
    requires
        0 <= c <= s < g < h.len(),
        h[s] == '<',
        h[g] == '>',
        forall|j: int| c <= j < s ==> h[j] != '<',
        forall|j: int| s <= j < g ==> h[j] != '>',
    ensures
        tag_boundaries_from(h, tag, c) == h.subrange(c, s) + (if starts_with_tag(h, s, tag, false)
            || starts_with_tag(h, s, tag, true) {
            seq!['\n']
        } else {
            h.subrange(s, g + 1)
        }) + tag_boundaries_from(h, tag, g + 1),
{
    lemma_matches_char(h, s, '<');
    assert forall|j: int| c <= j < s implies !matches_at(h, j, seq!['<']) by {
        lemma_matches_char(h, j, '<');
    }
    lemma_find_from_unique(h, seq!['<'], c, s);
    lemma_matches_char(h, g, '>');
    assert forall|j: int| s <= j < g implies !matches_at(h, j, seq!['>']) by {
        lemma_matches_char(h, j, '>');
    }
    lemma_find_from_unique(h, seq!['>'], s, g);
    assert(open_tag_end(h, s) == Some(g + 1));
}

/// The pass for `tag` over a text with no `<` from `c` on copies it.
pub proof fn lemma_tag_boundaries_plain(h: Seq<char>, tag: Seq<char>, c: int)
    requires
        0 <= c <= h.len(),
        forall|j: int| c <= j < h.len() ==> h[j] != '<',
    ensures
        tag_boundaries_from(h, tag, c) == h.subrange(c, h.len() as int),
{
    lemma_find_from(h, seq!['<'], c);
    if let Some(i) = find_from(h, seq!['<'], c) {
        lemma_matches_char(h, i, '<');
    }
}

/// The pass for `u` over plain text `x` followed by the tag `tag_text(t, closing)`: `x` is
/// copied, and the tag becomes a newline exactly when `u` is `t`.
pub proof fn lemma_tag_boundaries_over_tag(
    h: Seq<char>,
    u: Seq<char>,
    c: int,
    x: Seq<char>,
    t: Seq<char>,
    closing: bool,
)
    requires
        is_lower_name(t),
        is_lower_name(u),
        0 <= c,
        c + x.len() + tag_text(t, closing).len() <= h.len(),
        h.subrange(c, c + x.len() + tag_text(t, closing).len()) == x + tag_text(t, closing),
        forall|j: int| 0 <= j < x.len() ==> x[j] != '<',
    ensures
        tag_boundaries_from(h, u, c) == x + (if u == t {
            seq!['\n']
        } else {
            tag_text(t, closing)
        }) + tag_boundaries_from(h, u, c + x.len() + tag_text(t, closing).len()),
{
    let tt = tag_text(t, closing);
    let seg = x + tt;
    let s = c + x.len();
    let g = s + tt.len() - 1;
    assert forall|k: int| 0 <= k < seg.len() implies h[c + k] == #[trigger] seg[k] by {
        assert(h.subrange(c, c + seg.len())[k] == h[c + k]);
    }
    assert(h[s] == '<') by {
        assert(seg[x.len() as int] == tt[0]);
    }
    assert(h[g] == '>') by {
        assert(seg[x.len() + tt.len() - 1] == tt[tt.len() - 1]);
    }
    assert forall|j: int| c <= j < s implies h[j] != '<' by {
        assert(h[c + (j - c)] == seg[j - c]);
        assert(seg[j - c] == x[j - c]);
    }
    assert forall|j: int| s <= j < g implies h[j] != '>' by {
        assert(h[c + (j - c)] == seg[j - c]);
        assert(seg[j - c] == tt[j - s]);
        if j - s >= tag_prefix(closing).len() {
            assert(tt[j - s] == t[j - s - tag_prefix(closing).len()]);
            assert('a' <= t[j - s - tag_prefix(closing).len()]);
        }
    }
    lemma_tag_boundaries_step(h, u, c, s, g);
    assert(h.subrange(s, s + tt.len()) =~= tt) by {
        assert forall|k: int| 0 <= k < tt.len() implies h.subrange(s, s + tt.len())[k] == tt[k] by {
            assert(h[c + (x.len() + k)] == seg[x.len() + k]);
        }
    }
    lemma_tag_at(h, s, t, closing, u);
    assert(h.subrange(c, s) =~= x) by {
        assert forall|k: int| 0 <= k < x.len() implies h.subrange(c, s)[k] == x[k] by {
            assert(h[c + k] == seg[k]);
        }
    }
    assert(h.subrange(s, g + 1) =~= tt);
}

/// In plain text `x` followed by the tag `tag_text(t, closing)`, the only `<` is the tag's
/// own.
pub proof fn lemma_lt_over_tag(h: Seq<char>, c: int, x: Seq<char>, t: Seq<char>, closing: bool, j: int)
    requires
        is_lower_name(t),
        0 <= c,
        c + x.len() + tag_text(t, closing).len() <= h.len(),
        h.subrange(c, c + x.len() + tag_text(t, closing).len()) == x + tag_text(t, closing),
        forall|i: int| 0 <= i < x.len() ==> x[i] != '<',
        c <= j < c + x.len() + tag_text(t, closing).len(),
        h[j] == '<',
    ensures
        j == c + x.len(),
        h.subrange(j, j + tag_text(t, closing).len()) == tag_text(t, closing),
{
    let tt = tag_text(t, closing);
    let seg = x + tt;
    let pre = tag_prefix(closing);
    assert forall|k: int| 0 <= k < seg.len() implies h[c + k] == #[trigger] seg[k] by {
        assert(h.subrange(c, c + seg.len())[k] == h[c + k]);
    }
    assert(h[c + (j - c)] == seg[j - c]);
    if j - c < x.len() {
        assert(seg[j - c] == x[j - c]);
    } else {
        let k = j - c - x.len();
        assert(seg[j - c] == tt[k]);
        if k >= pre.len() && k < pre.len() + t.len() {
            assert(tt[k] == t[k - pre.len()]);
            assert('a' <= t[k - pre.len()]);
        }
        if closing && k == 1 {
            assert(tt[1] == '/');
        }
    }
    assert(h.subrange(j, j + tt.len()) =~= tt) by {
        assert forall|k: int| 0 <= k < tt.len() implies h.subrange(j, j + tt.len())[k] == tt[k] by {
            assert(h[c + (x.len() + k)] == seg[x.len() + k]);
        }
    }
}

/// With no `tag` start at or after `from`, none is found.
pub proof fn lemma_first_tag_start_none(h: Seq<char>, tag: Seq<char>, from: int)
    requires
        0 <= from,
        forall|j: int| from <= j ==> !starts_with_tag(h, j, tag, false),
    ensures
        first_tag_start(h, tag, from) is None,
    decreases h.len() - from,
{
    if from < h.len() {
        lemma_first_tag_start_none(h, tag, from + 1);
    }
}

/// A text without `<` or `>` keeps all its characters when tags are stripped.
pub proof fn lemma_without_tags_plain(s: Seq<char>)
    requires
        forall|i: int| 0 <= i < s.len() ==> s[i] != '<' && s[i] != '>',
    ensures
        strip_tags_fold(s) == (s, false),
        without_tags(s) == s,
    decreases s.len(),
{
    if s.len() > 0 {
        let r = s.drop_last();
        assert forall|i: int| 0 <= i < r.len() implies r[i] != '<' && r[i] != '>' by {
            assert(r[i] == s[i]);
        }
        lemma_without_tags_plain(r);
        assert(s[s.len() - 1] != '<' && s[s.len() - 1] != '>');
        assert(r.push(s.last()) =~= s);
    }
}

} // verus!
