//! Turning a downloaded article page into clean archive exports: the cleaned article HTML, a
//! Markdown rendering, file names that are safe on every platform and references from the
//! export directory to the article's local assets.
use vstd::prelude::*;

use crate::archive_store::ArchiveArticle;
use crate::html::{
    attribute_of, attribute_value, decode_entities, decode_html_entities, extract_element,
    extract_element_by_id, insert_attribute, remove_attribute, remove_attribute_from_element_by_id,
    remove_element_by_id, remove_element_by_tag, replace_tag_boundaries, strip_tags,
    tag_boundaries_from, with_attribute, without_attribute, without_element_attribute,
    without_id_elements, without_tag_elements, without_tags, is_lower_name, tag_text,
    starts_with_tag, first_tag_start, lemma_tag_at, lemma_lt_over_tag, lemma_first_tag_start_none,
    lemma_tag_boundaries_over_tag, lemma_tag_boundaries_plain, lemma_without_tags_plain,
};
use crate::text::{
    char_is_control, char_is_whitespace, chars_eq, chars_of, collapse_inline_whitespace,
    collapse_whitespace, find_char, find_from, is_ascii_digit, is_control, is_whitespace, join,
    join_chars, lemma_find_from, lines, lines_fold, matches_at, matches_at_exec, push_all,
    push_range, rfind_before, rfind_char_before, slice_chars, split_chars, split_on, starts_with,
    string_of, strip_cr, trim, trim_chars, trim_punct, trim_punct_chars, views,
    lemma_matches_char, lemma_replace_all_absent, lemma_lines_fold_append, lemma_lines_fold_newline,
};
use crate::web_url::{parse_url, path_segments, url_parse, url_path_segments};

verus! {

/// A character that file names must not hold: control characters, white space and the
/// characters that Windows forbids.
pub open spec fn is_unsafe_file_char(c: char) -> bool {
    is_control(c) || is_whitespace(c) || c == '<' || c == '>' || c == ':' || c == '"' || c == '/'
        || c == '\\' || c == '|' || c == '?' || c == '*'
}

/// Making a file name segment, left to right: unsafe characters become `_` and runs of `_`
/// (written or made) shrink to one; the text so far and whether it ends in `_`.
pub open spec fn segment_fold(s: Seq<char>) -> (Seq<char>, bool)
    decreases s.len(),
{
    if s.len() == 0 {
        (seq![], false)
    } else {
        let (out, previous_separator) = segment_fold(s.drop_last());
        let c = if is_unsafe_file_char(s.last()) {
            '_'
        } else {
            s.last()
        };
        if c == '_' {
            if previous_separator {
                (out, true)
            } else {
                (out.push('_'), true)
            }
        } else {
            (out.push(c), false)
        }
    }
}

/// A file name segment made from `value`: unsafe characters replaced, runs of `_` shrunk,
/// leading and trailing `.`, `_` and spaces removed, cut to 96 characters; `default` when
/// nothing is left.
pub open spec fn safe_segment(value: Seq<char>, default: Seq<char>) -> Seq<char> {
    let t = trim_punct(segment_fold(value).0, true);
    if t.len() == 0 {
        default
    } else if t.len() <= 96 {
        t
    } else {
        t.take(96)
    }
}

/// A file name segment made from `value`, or `default` when nothing of it is usable.
pub fn safe_file_segment_with_default(value: &Vec<char>, default: &Vec<char>) -> (r: Vec<char>)
    ensures
        r@ == safe_segment(value@, default@),
{
    let mut output: Vec<char> = Vec::new();
    let mut previous_separator = false;
    let mut k: usize = 0;
    while k < value.len()
        invariant
            k <= value.len(),
            (output@, previous_separator) == segment_fold(value@.take(k as int)),
        decreases value.len() - k,
    {
        assert(value@.take(k + 1).drop_last() =~= value@.take(k as int));
        let character = value[k];
        let c = if char_is_control(character) || char_is_whitespace(character) || character == '<'
            || character == '>' || character == ':' || character == '"' || character == '/'
            || character == '\\' || character == '|' || character == '?' || character == '*' {
            '_'
        } else {
            character
        };
        if c == '_' {
            if !previous_separator {
                output.push('_');
                previous_separator = true;
            }
        } else {
            output.push(c);
            previous_separator = false;
        }
        k = k + 1;
    }
    assert(value@.take(value.len() as int) =~= value@);
    let trimmed = trim_punct_chars(&output, true);
    if trimmed.len() == 0 {
        slice_chars(default, 0, default.len())
    } else if trimmed.len() <= 96 {
        trimmed
    } else {
        slice_chars(&trimmed, 0, 96)
    }
}

/// A file name segment made from `value`, `item` when nothing of it is usable.
pub fn safe_file_segment(value: &Vec<char>) -> (r: Vec<char>)
    ensures
        r@ == safe_segment(value@, seq!['i', 't', 'e', 'm']),
{
    let default = vec!['i', 't', 'e', 'm'];
    assert(default@ =~= seq!['i', 't', 'e', 'm']);
    safe_file_segment_with_default(value, &default)
}

/// The stem of an export file: the safe title (`article` when empty), `-`, the safe article id
/// (`item` when empty).
pub open spec fn export_stem(title: Seq<char>, article_id: Seq<char>) -> Seq<char> {
    safe_segment(title, seq!['a', 'r', 't', 'i', 'c', 'l', 'e']) + seq!['-'] + safe_segment(
        article_id,
        seq!['i', 't', 'e', 'm'],
    )
}

/// The file stem for the exports of an article.
pub fn export_file_stem(title: &Vec<char>, article_id: &Vec<char>) -> (r: Vec<char>)
    ensures
        r@ == export_stem(title@, article_id@),
{
    let article_default = vec!['a', 'r', 't', 'i', 'c', 'l', 'e'];
    assert(article_default@ =~= seq!['a', 'r', 't', 'i', 'c', 'l', 'e']);
    let mut stem = safe_file_segment_with_default(title, &article_default);
    stem.push('-');
    let id_segment = safe_file_segment(article_id);
    push_all(&mut stem, &id_segment);
    stem
}

/// The rest of `file_name` after a numbering prefix of three ASCII digits and `-`.
pub open spec fn numbered_prefix_rest(f: Seq<char>) -> Option<Seq<char>> {
    match find_from(f, seq!['-'], 0) {
        Some(i) => if i == 3 && is_ascii_digit(f[0]) && is_ascii_digit(f[1]) && is_ascii_digit(
            f[2],
        ) {
            Some(f.subrange(4, f.len() as int))
        } else {
            None
        },
        None => None,
    }
}

/// `file_name` without a `NNN-` numbering prefix, if it has one.
pub fn strip_numbered_asset_prefix(file_name: &Vec<char>) -> (r: Option<Vec<char>>)
    ensures
        r matches Some(v) ==> numbered_prefix_rest(file_name@) == Some(v@),
        r is None ==> numbered_prefix_rest(file_name@) is None,
{
    proof {
        lemma_find_from(file_name@, seq!['-'], 0);
    }
    match find_char(file_name, '-', 0) {
        Some(i) => {
            if i == 3 && '0' <= file_name[0] && file_name[0] <= '9' && '0' <= file_name[1]
                && file_name[1] <= '9' && '0' <= file_name[2] && file_name[2] <= '9' {
                Some(slice_chars(file_name, 4, file_name.len()))
            } else {
                None
            }
        },
        None => None,
    }
}

/// The upper-case mapping of `c` that `char::to_uppercase` yields (one or more characters).
pub uninterp spec fn char_uppercase(c: char) -> Seq<char>;

/// Collects `char::to_uppercase`. The contract names the result; of it, it states only what
/// `char::to_uppercase`'s documentation shows for ASCII: `a`..`z` map to `A`..`Z` and every
/// other ASCII character maps to itself.
#[verifier::external_body]
fn char_to_uppercase(c: char) -> (r: Vec<char>)
    ensures
        r@ == char_uppercase(c),
        'a' <= c && c <= 'z' ==> r@ == seq![((c as u32) - 32) as char],
        (c as u32) < 0x80 && !('a' <= c && c <= 'z') ==> r@ == seq![c],
{
    c.to_uppercase().collect()
}

/// The upper-case mapping of `c`: for ASCII, `a`..`z` become `A`..`Z` and every other
/// character stays; beyond ASCII, what `char::to_uppercase` yields.
pub open spec fn uppercase_of(c: char) -> Seq<char> {
    if 'a' <= c && c <= 'z' {
        seq![((c as u32) - 32) as char]
    } else if (c as u32) < 0x80 {
        seq![c]
    } else {
        char_uppercase(c)
    }
}

/// The upper-case mapping of `c` (`char::to_uppercase`), one or more characters.
pub fn uppercase_char(c: char) -> (r: Vec<char>)
    ensures
        r@ == uppercase_of(c),
{
    char_to_uppercase(c)
}

/// Building an image's alt text from a file stem, left to right: `-`, `_` and `.` become
/// spaces and the character after one (and the first) is upper-cased.
pub open spec fn alt_fold(s: Seq<char>) -> (Seq<char>, bool)
    decreases s.len(),
{
    if s.len() == 0 {
        (seq![], true)
    } else {
        let (out, capitalize_next) = alt_fold(s.drop_last());
        let c = s.last();
        if c == '-' || c == '_' || c == '.' {
            (out.push(' '), true)
        } else if capitalize_next {
            (out + uppercase_of(c), false)
        } else {
            (out.push(c), false)
        }
    }
}

/// The file name of an image source: the text after its last `/`.
pub open spec fn source_file_name(source: Seq<char>) -> Seq<char> {
    match rfind_before(source, '/', source.len() as int) {
        Some(i) => source.subrange(i + 1, source.len() as int),
        None => source,
    }
}

/// The text before the first `.` of `f`.
pub open spec fn before_first_dot(f: Seq<char>) -> Seq<char> {
    match find_from(f, seq!['.'], 0) {
        Some(i) => f.subrange(0, i),
        None => f,
    }
}

/// The alt text made from an image source: its file name (`image` when empty) without a
/// numbering prefix and extension, words capitalised; `Image` when nothing is left.
pub open spec fn image_alt(source: Seq<char>) -> Seq<char> {
    let name = source_file_name(source);
    let name = if name.len() == 0 {
        seq!['i', 'm', 'a', 'g', 'e']
    } else {
        name
    };
    let name = match numbered_prefix_rest(name) {
        Some(rest) => rest,
        None => name,
    };
    let out = trim(alt_fold(before_first_dot(name)).0);
    if out.len() == 0 {
        seq!['I', 'm', 'a', 'g', 'e']
    } else {
        out
    }
}

proof fn lemma_rfind_before_bounds(s: Seq<char>, c: char, end: int)
    requires
        end <= s.len(),
    ensures
        rfind_before(s, c, end) matches Some(i) ==> 0 <= i < end,
    decreases end,
{
    if end > 0 && s[end - 1] != c {
        lemma_rfind_before_bounds(s, c, end - 1);
    }
}

/// The alt text for an image taken from its source.
pub fn image_alt_from_source(source: &Vec<char>) -> (r: Vec<char>)
    ensures
        r@ == image_alt(source@),
{
    proof {
        lemma_rfind_before_bounds(source@, '/', source.len() as int);
    }
    let name = match rfind_char_before(source, '/', source.len()) {
        Some(i) => slice_chars(source, i + 1, source.len()),
        None => slice_chars(source, 0, source.len()),
    };
    assert(name@ =~= source_file_name(source@));
    let name = if name.len() == 0 {
        let image = vec!['i', 'm', 'a', 'g', 'e'];
        assert(image@ =~= seq!['i', 'm', 'a', 'g', 'e']);
        image
    } else {
        name
    };
    let name = match strip_numbered_asset_prefix(&name) {
        Some(rest) => rest,
        None => name,
    };
    proof {
        lemma_find_from(name@, seq!['.'], 0);
    }
    let stem = match find_char(&name, '.', 0) {
        Some(i) => slice_chars(&name, 0, i),
        None => name,
    };
    let mut output: Vec<char> = Vec::new();
    let mut capitalize_next = true;
    let mut k: usize = 0;
    while k < stem.len()
        invariant
            k <= stem.len(),
            (output@, capitalize_next) == alt_fold(stem@.take(k as int)),
        decreases stem.len() - k,
    {
        assert(stem@.take(k + 1).drop_last() =~= stem@.take(k as int));
        let c = stem[k];
        if c == '-' || c == '_' || c == '.' {
            output.push(' ');
            capitalize_next = true;
        } else if capitalize_next {
            let upper = uppercase_char(c);
            push_all(&mut output, &upper);
            capitalize_next = false;
        } else {
            output.push(c);
        }
        k = k + 1;
    }
    assert(stem@.take(stem.len() as int) =~= stem@);
    let trimmed = trim_chars(&output);
    if trimmed.len() == 0 {
        let fallback = vec!['I', 'm', 'a', 'g', 'e'];
        assert(fallback@ =~= seq!['I', 'm', 'a', 'g', 'e']);
        fallback
    } else {
        trimmed
    }
}

} // verus!

verus! {

/// A path piece that names something (not empty, `.` or `..`).
pub open spec fn is_normal_piece(p: Seq<char>) -> bool {
    p.len() > 0 && p != seq!['.'] && p != seq!['.', '.']
}

/// A path piece that an HTML reference keeps (not empty or `.`).
pub open spec fn is_reference_piece(p: Seq<char>) -> bool {
    p.len() > 0 && p != seq!['.']
}

/// The pieces of `ps` that satisfy the chosen test (`normal` or reference), in order.
pub open spec fn keep_pieces(ps: Seq<Seq<char>>, normal: bool) -> Seq<Seq<char>>
    decreases ps.len(),
{
    if ps.len() == 0 {
        seq![]
    } else {
        let kept = keep_pieces(ps.drop_last(), normal);
        let p = ps.last();
        if (normal && is_normal_piece(p)) || (!normal && is_reference_piece(p)) {
            kept.push(p)
        } else {
            kept
        }
    }
}

/// The named components of a `/`-separated path (`Component::Normal` on Unix).
pub open spec fn normal_components_of(path: Seq<char>) -> Seq<Seq<char>> {
    keep_pieces(split_on(path, '/'), true)
}

/// A path as an HTML reference: its named and `..` components joined with `/`.
pub open spec fn html_reference(path: Seq<char>) -> Seq<char> {
    join(keep_pieces(split_on(path, '/'), false), seq!['/'])
}

fn is_normal_piece_exec(p: &Vec<char>, normal: bool) -> (r: bool)
    ensures
        r == ((normal && is_normal_piece(p@)) || (!normal && is_reference_piece(p@))),
{
    let dot = p.len() == 1 && p[0] == '.';
    let dot_dot = p.len() == 2 && p[0] == '.' && p[1] == '.';
    proof {
        if p@.len() == 1 {
            assert(dot == (p@ == seq!['.'])) by {
                if p@[0] == '.' {
                    assert(p@ =~= seq!['.']);
                }
            }
        } else {
            assert(p@ != seq!['.']) by {
                assert(seq!['.'].len() == 1);
            }
        }
        if p@.len() == 2 {
            assert(dot_dot == (p@ == seq!['.', '.'])) by {
                if p@[0] == '.' && p@[1] == '.' {
                    assert(p@ =~= seq!['.', '.']);
                }
            }
        } else {
            assert(p@ != seq!['.', '.']) by {
                assert(seq!['.', '.'].len() == 2);
            }
        }
    }
    if normal {
        p.len() > 0 && !dot && !dot_dot
    } else {
        p.len() > 0 && !dot
    }
}

fn keep_pieces_exec(pieces: Vec<Vec<char>>, normal: bool) -> (r: Vec<Vec<char>>)
    ensures
        views(r@) == keep_pieces(views(pieces@), normal),
{
    let mut kept: Vec<Vec<char>> = Vec::new();
    let mut k: usize = 0;
    while k < pieces.len()
        invariant
            k <= pieces.len(),
            views(kept@) == keep_pieces(views(pieces@).take(k as int), normal),
        decreases pieces.len() - k,
    {
        assert(views(pieces@).take(k + 1).drop_last() =~= views(pieces@).take(k as int));
        if is_normal_piece_exec(&pieces[k], normal) {
            let ghost before = kept@;
            kept.push(pieces[k].clone());
            assert(views(kept@) =~= views(before).push(pieces@[k as int]@));
        }
        k = k + 1;
    }
    assert(views(pieces@).take(pieces.len() as int) =~= views(pieces@));
    kept
}

/// The named components of `path`.
pub fn normal_components(path: &Vec<char>) -> (r: Vec<Vec<char>>)
    ensures
        views(r@) == normal_components_of(path@),
{
    keep_pieces_exec(split_chars(path, '/'), true)
}

/// `path` as a `/`-separated HTML reference.
pub fn path_to_html_reference(path: &Vec<char>) -> (r: Vec<char>)
    ensures
        r@ == html_reference(path@),
{
    let pieces = keep_pieces_exec(split_chars(path, '/'), false);
    let sep = vec!['/'];
    assert(sep@ =~= seq!['/']);
    join_chars(&pieces, &sep)
}

/// Length of the common prefix of `a` and `b`, counting from `i`.
pub open spec fn common_prefix_len(a: Seq<Seq<char>>, b: Seq<Seq<char>>, i: int) -> int
    decreases a.len() - i,
{
    if 0 <= i && i < a.len() && i < b.len() && a[i] == b[i] {
        common_prefix_len(a, b, i + 1)
    } else {
        i
    }
}

/// The path from the directory `from_dir` to `target`: one `..` for each component of
/// `from_dir` after the common prefix, then the rest of `target`, joined with `/`.
pub open spec fn relative_path_of(from_dir: Seq<char>, target: Seq<char>) -> Seq<char> {
    let f = normal_components_of(from_dir);
    let t = normal_components_of(target);
    let c = common_prefix_len(f, t, 0);
    join(Seq::new((f.len() - c) as nat, |i: int| seq!['.', '.']) + t.subrange(c, t.len() as int), seq!['/'])
}

pub proof fn lemma_common_prefix_len_bounds(a: Seq<Seq<char>>, b: Seq<Seq<char>>, i: int)
    requires
        0 <= i <= a.len(),
        i <= b.len(),
    ensures
        i <= common_prefix_len(a, b, i) <= a.len(),
        common_prefix_len(a, b, i) <= b.len(),
    decreases a.len() - i,
{
    if i < a.len() && i < b.len() && a[i] == b[i] {
        lemma_common_prefix_len_bounds(a, b, i + 1);
    }
}

/// The relative path from `from_dir` to `target`.
pub fn relative_path(from_dir: &Vec<char>, target: &Vec<char>) -> (r: Vec<char>)
    ensures
        r@ == relative_path_of(from_dir@, target@),
{
    let f = normal_components(from_dir);
    let t = normal_components(target);
    let mut c: usize = 0;
    while c < f.len() && c < t.len() && chars_eq(&f[c], &t[c])
        invariant
            c <= f.len(),
            c <= t.len(),
            common_prefix_len(views(f@), views(t@), 0) == common_prefix_len(
                views(f@),
                views(t@),
                c as int,
            ),
        decreases f.len() - c,
    {
        c = c + 1;
    }
    proof {
        lemma_common_prefix_len_bounds(views(f@), views(t@), c as int);
    }
    let mut pieces: Vec<Vec<char>> = Vec::new();
    let mut k: usize = c;
    while k < f.len()
        invariant
            c <= k <= f.len(),
            views(pieces@) =~= Seq::new((k - c) as nat, |i: int| seq!['.', '.']),
        decreases f.len() - k,
    {
        let up = vec!['.', '.'];
        assert(up@ =~= seq!['.', '.']);
        let ghost before = pieces@;
        pieces.push(up);
        assert(views(pieces@) =~= views(before).push(up@));
        k = k + 1;
    }
    let ghost ups = views(pieces@);
    let mut m: usize = c;
    while m < t.len()
        invariant
            c <= m <= t.len(),
            views(pieces@) =~= ups + views(t@).subrange(c as int, m as int),
        decreases t.len() - m,
    {
        let ghost before = pieces@;
        pieces.push(t[m].clone());
        assert(views(pieces@) =~= views(before).push(t@[m as int]@));
        m = m + 1;
    }
    let sep = vec!['/'];
    assert(sep@ =~= seq!['/']);
    join_chars(&pieces, &sep)
}

/// `Path::file_name` of a `/`-separated path: its last component, unless that is `..` or the
/// path names nothing.
pub open spec fn file_name_of(path: Seq<char>) -> Option<Seq<char>> {
    let ps = keep_pieces(split_on(path, '/'), false);
    if ps.len() == 0 || ps.last() == seq!['.', '.'] {
        None
    } else {
        Some(ps.last())
    }
}

/// The file name of `path`.
pub fn path_file_name(path: &Vec<char>) -> (r: Option<Vec<char>>)
    ensures
        r matches Some(v) ==> file_name_of(path@) == Some(v@),
        r is None ==> file_name_of(path@) is None,
{
    let pieces = keep_pieces_exec(split_chars(path, '/'), false);
    if pieces.len() == 0 {
        return None;
    }
    let last = pieces[pieces.len() - 1].clone();
    assert(views(pieces@).last() == last@);
    let dot_dot = vec!['.', '.'];
    assert(dot_dot@ =~= seq!['.', '.']);
    if chars_eq(&last, &dot_dot) {
        None
    } else {
        Some(last)
    }
}

} // verus!

verus! {

/// First position at or after `i` in `keys` that holds `k`.
pub open spec fn key_index(keys: Seq<Seq<char>>, k: Seq<char>, i: int) -> Option<int>
    decreases keys.len() - i,
{
    if i < 0 || i >= keys.len() {
        None
    } else if keys[i] == k {
        Some(i)
    } else {
        key_index(keys, k, i + 1)
    }
}

pub proof fn lemma_key_index(keys: Seq<Seq<char>>, k: Seq<char>, i: int)
    requires
        0 <= i,
    ensures
        match key_index(keys, k, i) {
            Some(j) => i <= j < keys.len() && keys[j] == k && forall|m: int|
                i <= m < j ==> keys[m] != k,
            None => forall|m: int| i <= m < keys.len() ==> keys[m] != k,
        },
    decreases keys.len() - i,
{
    if i < keys.len() && keys[i] != k {
        lemma_key_index(keys, k, i + 1);
    }
}

pub proof fn lemma_key_index_first(keys: Seq<Seq<char>>, k: Seq<char>, i: int, j: int)
    requires
        0 <= i <= j < keys.len(),
        keys[j] == k,
        forall|m: int| i <= m < j ==> keys[m] != k,
    ensures
        key_index(keys, k, i) == Some(j),
    decreases j - i,
{
    if i < j {
        lemma_key_index_first(keys, k, i + 1, j);
    }
}

/// File names of an article's local assets mapped to the references of those files from the
/// export directory.
pub struct AssetReferenceMap {
    entries: Vec<(Vec<char>, Vec<char>)>,
}

/// The keys of the entries, in order.
pub open spec fn entry_keys(entries: Seq<(Vec<char>, Vec<char>)>) -> Seq<Seq<char>> {
    entries.map_values(|e: (Vec<char>, Vec<char>)| e.0@)
}

impl AssetReferenceMap {
    /// The reference stored for `k`.
    pub closed spec fn lookup(self, k: Seq<char>) -> Option<Seq<char>> {
        match key_index(entry_keys(self.entries@), k, 0) {
            Some(i) => Some(self.entries@[i].1@),
            None => None,
        }
    }

    /// The map as a mathematical map.
    pub closed spec fn map(self) -> Map<Seq<char>, Seq<char>> {
        Map::new(|k: Seq<char>| self.lookup(k) is Some, |k: Seq<char>| self.lookup(k)->0)
    }

    /// An empty map.
    pub fn new() -> (r: Self)
        ensures
            r.map() == Map::<Seq<char>, Seq<char>>::empty(),
    {
        let r = AssetReferenceMap { entries: Vec::new() };
        assert(r.map() =~= Map::<Seq<char>, Seq<char>>::empty());
        r
    }

    /// Stores `reference` for `key`, replacing what was stored for it.
    pub fn insert(&mut self, key: Vec<char>, reference: Vec<char>)
        ensures
            final(self).map() == old(self).map().insert(key@, reference@),
    {
        let ghost old_keys = entry_keys(self.entries@);
        let ghost orig = *self;
        let mut i: usize = 0;
        while i < self.entries.len()
            invariant
                i <= self.entries.len(),
                *self == orig,
                orig == *old(self),
                old_keys == entry_keys(self.entries@),
                forall|m: int| 0 <= m < i ==> old_keys[m] != key@,
            decreases self.entries.len() - i,
        {
            if chars_eq(&self.entries[i].0, &key) {
                proof {
                    lemma_key_index_first(old_keys, key@, 0, i as int);
                }
                let ghost before = *self;
                let entry_key = self.entries[i].0.clone();
                self.entries.set(i, (entry_key, reference));
                proof {
                    assert(entry_keys(self.entries@) =~= old_keys);
                    assert forall|k: Seq<char>| #[trigger] self.lookup(k) == (if k == key@ {
                        Some(reference@)
                    } else {
                        before.lookup(k)
                    }) by {
                        lemma_key_index(old_keys, k, 0);
                    }
                    assert(self.map() =~= before.map().insert(key@, reference@));
                }
                return;
            }
            i = i + 1;
        }
        let ghost before = *self;
        self.entries.push((key, reference));
        proof {
            assert(entry_keys(self.entries@) =~= old_keys.push(key@));
            assert forall|k: Seq<char>| #[trigger] self.lookup(k) == (if k == key@ {
                Some(reference@)
            } else {
                before.lookup(k)
            }) by {
                lemma_key_index(old_keys, k, 0);
                lemma_key_index(entry_keys(self.entries@), k, 0);
                if k == key@ {
                    lemma_key_index_first(entry_keys(self.entries@), k, 0, old_keys.len() as int);
                } else if let Some(j) = key_index(old_keys, k, 0) {
                    lemma_key_index_first(entry_keys(self.entries@), k, 0, j);
                }
            }
            assert(self.map() =~= before.map().insert(key@, reference@));
        }
    }

    /// The reference stored for `key`.
    pub fn get(&self, key: &Vec<char>) -> (r: Option<Vec<char>>)
        ensures
            r matches Some(v) ==> self.map().dom().contains(key@) && self.map()[key@] == v@,
            r is None ==> !self.map().dom().contains(key@),
    {
        proof {
            lemma_key_index(entry_keys(self.entries@), key@, 0);
        }
        let mut i: usize = 0;
        while i < self.entries.len()
            invariant
                i <= self.entries.len(),
                forall|m: int| 0 <= m < i ==> entry_keys(self.entries@)[m] != key@,
            decreases self.entries.len() - i,
        {
            if chars_eq(&self.entries[i].0, key) {
                proof {
                    lemma_key_index_first(entry_keys(self.entries@), key@, 0, i as int);
                }
                return Some(self.entries[i].1.clone());
            }
            i = i + 1;
        }
        None
    }
}

/// The keys under which an image source is looked up: the safe last segment of its URL path
/// (after `//` gets `https:`), if the URL parses and that segment is not empty, then the safe
/// file name of the source as a path.
pub open spec fn lookup_keys(value: Seq<char>) -> Seq<Seq<char>> {
    let trimmed = trim(value);
    let normalized = if starts_with(trimmed, seq!['/', '/']) {
        seq!['h', 't', 't', 'p', 's', ':'] + trimmed
    } else {
        trimmed
    };
    let item = seq!['i', 't', 'e', 'm'];
    let url_keys = match url_parse(normalized) {
        Ok(u) => match path_segments(u.path) {
            Some(segments) => if segments.last().len() > 0 {
                seq![safe_segment(segments.last(), item)]
            } else {
                seq![]
            },
            None => seq![],
        },
        Err(_) => seq![],
    };
    let file_keys = match file_name_of(trimmed) {
        Some(name) => seq![safe_segment(name, item)],
        None => seq![],
    };
    url_keys + file_keys
}

/// The reference stored for the first of `keys` that the map holds.
pub open spec fn first_reference(keys: Seq<Seq<char>>, m: Map<Seq<char>, Seq<char>>) -> Option<
    Seq<char>,
>
    decreases keys.len(),
{
    if keys.len() == 0 {
        None
    } else if m.dom().contains(keys[0]) {
        Some(m[keys[0]])
    } else {
        first_reference(keys.drop_first(), m)
    }
}

/// The local reference for an image source.
pub open spec fn asset_reference(value: Seq<char>, m: Map<Seq<char>, Seq<char>>) -> Option<Seq<char>> {
    first_reference(lookup_keys(value), m)
}

/// The keys under which `value` is looked up in the asset map.
pub fn asset_lookup_keys(value: &Vec<char>) -> (r: Vec<Vec<char>>)
    ensures
        views(r@) == lookup_keys(value@),
{
    let trimmed = trim_chars(value);
    let slashes = vec!['/', '/'];
    assert(slashes@ =~= seq!['/', '/']);
    let normalized = if matches_at_exec(&trimmed, 0, &slashes) {
        let mut n = vec!['h', 't', 't', 'p', 's', ':'];
        push_all(&mut n, &trimmed);
        n
    } else {
        trimmed.clone()
    };
    let mut keys: Vec<Vec<char>> = Vec::new();
    let normalized_text = string_of(normalized.as_slice());
    if let Ok(url) = parse_url(normalized_text.as_str()) {
        let path = chars_of(url.path.as_str());
        if let Some(segments) = url_path_segments(&path) {
            assert(views(segments@).len() == segments@.len());
            assert(segments.len() > 0);
            let last = &segments[segments.len() - 1];
            assert(views(segments@).last() == last@);
            if last.len() > 0 {
                keys.push(safe_file_segment(last));
            }
        }
    }
    let ghost url_keys = views(keys@);
    match path_file_name(&trimmed) {
        Some(name) => {
            keys.push(safe_file_segment(&name));
        },
        None => {},
    }
    assert(views(keys@) =~= lookup_keys(value@));
    keys
}

/// The local reference for the image source `value`, if the map holds one of its keys.
pub fn local_asset_reference(value: &Vec<char>, asset_map: &AssetReferenceMap) -> (r: Option<
    Vec<char>,
>)
    ensures
        r matches Some(v) ==> asset_reference(value@, asset_map.map()) == Some(v@),
        r is None ==> asset_reference(value@, asset_map.map()) is None,
{
    let keys = asset_lookup_keys(value);
    let ghost all = views(keys@);
    assert(all.subrange(0, all.len() as int) =~= all);
    assert(asset_reference(value@, asset_map.map()) == first_reference(all, asset_map.map()));
    let mut k: usize = 0;
    while k < keys.len()
        invariant
            k <= keys.len(),
            all == views(keys@),
            asset_reference(value@, asset_map.map()) == first_reference(all, asset_map.map()),
            first_reference(all, asset_map.map()) == first_reference(
                all.subrange(k as int, all.len() as int),
                asset_map.map(),
            ),
        decreases keys.len() - k,
    {
        let ghost rest = all.subrange(k as int, all.len() as int);
        assert(rest.len() > 0);
        assert(rest[0] == keys@[k as int]@);
        assert(rest.drop_first() =~= all.subrange(k + 1, all.len() as int));
        if let Some(reference) = asset_map.get(&keys[k]) {
            return Some(reference);
        }
        k = k + 1;
    }
    None
}

} // verus!

verus! {

/// The Markdown image written for an `<img>` tag: its `src` (else `data-src`) with its `alt`
/// (else an alt made from the source, entities decoded), between blank lines; nothing when the
/// tag has no source.
pub open spec fn markdown_image(t: Seq<char>) -> Seq<char> {
    let source = match attribute_of(t, seq!['s', 'r', 'c']) {
        Some(v) => Some(v),
        None => attribute_of(t, seq!['d', 'a', 't', 'a', '-', 's', 'r', 'c']),
    };
    match source {
        None => seq![],
        Some(src) => {
            let alt = match attribute_of(t, seq!['a', 'l', 't']) {
                Some(a) => a,
                None => image_alt(src),
            };
            seq!['\n', '\n', '!', '['] + decode_entities(alt) + seq![']', '('] + src + seq![
                ')',
                '\n',
                '\n',
            ]
        },
    }
}

/// Rewriting from `cursor`: every `<img ...>` tag replaced by its Markdown image; an `<img`
/// with no `>` after it ends the scan.
pub open spec fn markdown_images_from(h: Seq<char>, cursor: int) -> Seq<char>
    decreases h.len() - cursor,
{
    if cursor < 0 || cursor > h.len() {
        seq![]
    } else {
        match find_from(h, seq!['<', 'i', 'm', 'g'], cursor) {
            None => h.subrange(cursor, h.len() as int),
            Some(start) => match crate::html::open_tag_end(h, start) {
                None => h.subrange(cursor, h.len() as int),
                Some(end) => {
                    proof {
                        lemma_find_from(h, seq!['<', 'i', 'm', 'g'], cursor);
                        crate::html::lemma_open_tag_end(h, start);
                    }
                    h.subrange(cursor, start) + markdown_image(h.subrange(start, end))
                        + markdown_images_from(h, end)
                },
            },
        }
    }
}

/// The `<img>` tag `t` pointed at its local asset: `data-src` (else `src`) looked up in the
/// asset map, both attributes removed and `src` set to the local reference (or to the
/// source as it was); unchanged when it has no source.
pub open spec fn local_image_tag(t: Seq<char>, m: Map<Seq<char>, Seq<char>>) -> Seq<char> {
    let data_src = seq!['d', 'a', 't', 'a', '-', 's', 'r', 'c'];
    let src = seq!['s', 'r', 'c'];
    let source = match attribute_of(t, data_src) {
        Some(v) => Some(v),
        None => attribute_of(t, src),
    };
    match source {
        None => t,
        Some(value) => {
            let local = match asset_reference(value, m) {
                Some(r) => r,
                None => value,
            };
            with_attribute(without_attribute(without_attribute(t, data_src), src), src, local)
        },
    }
}

/// Rewriting from `cursor`: every `<img ...>` tag pointed at its local asset.
pub open spec fn local_images_from(h: Seq<char>, m: Map<Seq<char>, Seq<char>>, cursor: int) -> Seq<
    char,
>
    decreases h.len() - cursor,
{
    if cursor < 0 || cursor > h.len() {
        seq![]
    } else {
        match find_from(h, seq!['<', 'i', 'm', 'g'], cursor) {
            None => h.subrange(cursor, h.len() as int),
            Some(start) => match crate::html::open_tag_end(h, start) {
                None => h.subrange(cursor, h.len() as int),
                Some(end) => {
                    proof {
                        lemma_find_from(h, seq!['<', 'i', 'm', 'g'], cursor);
                        crate::html::lemma_open_tag_end(h, start);
                    }
                    h.subrange(cursor, start) + local_image_tag(h.subrange(start, end), m)
                        + local_images_from(h, m, end)
                },
            },
        }
    }
}

fn img_open() -> (r: Vec<char>)
    ensures
        r@ == seq!['<', 'i', 'm', 'g'],
{
    let r = vec!['<', 'i', 'm', 'g'];
    assert(r@ =~= seq!['<', 'i', 'm', 'g']);
    r
}

fn attr_src() -> (r: Vec<char>)
    ensures
        r@ == seq!['s', 'r', 'c'],
{
    let r = vec!['s', 'r', 'c'];
    assert(r@ =~= seq!['s', 'r', 'c']);
    r
}

fn attr_data_src() -> (r: Vec<char>)
    ensures
        r@ == seq!['d', 'a', 't', 'a', '-', 's', 'r', 'c'],
{
    let r = vec!['d', 'a', 't', 'a', '-', 's', 'r', 'c'];
    assert(r@ =~= seq!['d', 'a', 't', 'a', '-', 's', 'r', 'c']);
    r
}

/// The Markdown image for the `<img>` tag `tag`.
fn markdown_image_for_tag(tag: &Vec<char>) -> (r: Vec<char>)
    ensures
        r@ == markdown_image(tag@),
{
    let source = match attribute_value(tag, &attr_src()) {
        Some(v) => Some(v),
        None => attribute_value(tag, &attr_data_src()),
    };
    match source {
        None => Vec::new(),
        Some(src) => {
            let alt_name = vec!['a', 'l', 't'];
            assert(alt_name@ =~= seq!['a', 'l', 't']);
            let alt = match attribute_value(tag, &alt_name) {
                Some(a) => a,
                None => image_alt_from_source(&src),
            };
            let mut out = vec!['\n', '\n', '!', '['];
            let decoded = decode_html_entities(&alt);
            push_all(&mut out, &decoded);
            out.push(']');
            out.push('(');
            push_all(&mut out, &src);
            out.push(')');
            out.push('\n');
            out.push('\n');
            assert(out@ =~= markdown_image(tag@));
            out
        },
    }
}

/// `html` with every `<img>` tag replaced by a Markdown image.
pub fn replace_img_tags_with_markdown(html: &Vec<char>) -> (r: Vec<char>)
    ensures
        r@ == markdown_images_from(html@, 0),
{
    let pattern = img_open();
    let mut output: Vec<char> = Vec::new();
    let mut cursor: usize = 0;
    while cursor <= html.len()
        invariant
            pattern@ == seq!['<', 'i', 'm', 'g'],
            cursor <= html.len(),
            output@ + markdown_images_from(html@, cursor as int) == markdown_images_from(html@, 0),
        decreases html.len() - cursor,
    {
        proof {
            lemma_find_from(html@, seq!['<', 'i', 'm', 'g'], cursor as int);
        }
        let start = match crate::text::find_chars(html, &pattern, cursor) {
            Some(s) => s,
            None => {
                push_range(&mut output, html, cursor, html.len());
                return output;
            },
        };
        proof {
            crate::html::lemma_open_tag_end(html@, start as int);
        }
        let end = match crate::html::open_tag_end_exec(html, start) {
            Some(e) => e,
            None => {
                push_range(&mut output, html, cursor, html.len());
                return output;
            },
        };
        let ghost before = output@;
        push_range(&mut output, html, cursor, start);
        let tag = slice_chars(html, start, end);
        let image = markdown_image_for_tag(&tag);
        push_all(&mut output, &image);
        proof {
            assert(output@ + markdown_images_from(html@, end as int) =~= before
                + markdown_images_from(html@, cursor as int));
        }
        cursor = end;
    }
    output
}

/// The `<img>` tag `tag` pointed at its local asset.
pub fn rewrite_img_tag(tag: &Vec<char>, asset_map: &AssetReferenceMap) -> (r: Vec<char>)
    ensures
        r@ == local_image_tag(tag@, asset_map.map()),
{
    let data_src = attr_data_src();
    let src = attr_src();
    let source = match attribute_value(tag, &data_src) {
        Some(v) => Some(v),
        None => attribute_value(tag, &src),
    };
    let value = match source {
        None => return slice_chars(tag, 0, tag.len()),
        Some(v) => v,
    };
    let local = match local_asset_reference(&value, asset_map) {
        Some(r) => r,
        None => value,
    };
    let without_data_src = remove_attribute(tag, &data_src);
    let without_src = remove_attribute(&without_data_src, &src);
    insert_attribute(&without_src, &src, &local)
}

/// `html` with every `<img>` tag pointed at its local asset.
pub fn rewrite_img_tags(html: &Vec<char>, asset_map: &AssetReferenceMap) -> (r: Vec<char>)
    ensures
        r@ == local_images_from(html@, asset_map.map(), 0),
{
    let pattern = img_open();
    let mut output: Vec<char> = Vec::new();
    let mut cursor: usize = 0;
    while cursor <= html.len()
        invariant
            pattern@ == seq!['<', 'i', 'm', 'g'],
            cursor <= html.len(),
            output@ + local_images_from(html@, asset_map.map(), cursor as int) == local_images_from(
                html@,
                asset_map.map(),
                0,
            ),
        decreases html.len() - cursor,
    {
        proof {
            lemma_find_from(html@, seq!['<', 'i', 'm', 'g'], cursor as int);
        }
        let start = match crate::text::find_chars(html, &pattern, cursor) {
            Some(s) => s,
            None => {
                push_range(&mut output, html, cursor, html.len());
                return output;
            },
        };
        proof {
            crate::html::lemma_open_tag_end(html@, start as int);
        }
        let end = match crate::html::open_tag_end_exec(html, start) {
            Some(e) => e,
            None => {
                push_range(&mut output, html, cursor, html.len());
                return output;
            },
        };
        let ghost before = output@;
        push_range(&mut output, html, cursor, start);
        let tag = slice_chars(html, start, end);
        let rewritten = rewrite_img_tag(&tag, asset_map);
        push_all(&mut output, &rewritten);
        proof {
            assert(output@ + local_images_from(html@, asset_map.map(), end as int) =~= before
                + local_images_from(html@, asset_map.map(), cursor as int));
        }
        cursor = end;
    }
    output
}

} // verus!

verus! {

/// A Markdown line: white space collapsed, then trimmed.
pub open spec fn markdown_line(l: Seq<char>) -> Seq<char> {
    trim(collapse_whitespace(l))
}

/// Laying out `ls` as Markdown, line by line: the text so far, whether a line has been
/// written, and whether blank lines stand since the last one.
pub open spec fn markdown_fold(ls: Seq<Seq<char>>) -> (Seq<char>, bool, bool)
    decreases ls.len(),
{
    if ls.len() == 0 {
        (seq![], false, false)
    } else {
        let (out, started, pending_blank) = markdown_fold(ls.drop_last());
        let line = markdown_line(ls.last());
        if line.len() == 0 {
            (out, started, started)
        } else if started {
            (out + (if pending_blank {
                seq!['\n', '\n']
            } else {
                seq!['\n']
            }) + line, true, false)
        } else {
            (line, true, false)
        }
    }
}

/// The non-blank lines of `s` (each collapsed and trimmed) joined by newlines, with one blank
/// line wherever blank lines stood between two of them.
pub open spec fn normalized_markdown(s: Seq<char>) -> Seq<char> {
    markdown_fold(lines(s)).0
}

fn add_markdown_line(
    out: &mut Vec<char>,
    started: &mut bool,
    pending_blank: &mut bool,
    raw_line: &Vec<char>,
)
    ensures
        (final(out)@, *final(started), *final(pending_blank)) == ({
            let line = markdown_line(raw_line@);
            if line.len() == 0 {
                (old(out)@, *old(started), *old(started))
            } else if *old(started) {
                (old(out)@ + (if *old(pending_blank) {
                    seq!['\n', '\n']
                } else {
                    seq!['\n']
                }) + line, true, false)
            } else {
                (line, true, false)
            }
        }),
{
    let collapsed = collapse_inline_whitespace(raw_line);
    let line = trim_chars(&collapsed);
    if line.len() == 0 {
        *pending_blank = *started;
    } else if *started {
        out.push('\n');
        if *pending_blank {
            out.push('\n');
        }
        push_all(out, &line);
        *pending_blank = false;
        proof {
            if *old(pending_blank) {
                assert(out@ =~= old(out)@ + seq!['\n', '\n'] + line@);
            } else {
                assert(out@ =~= old(out)@ + seq!['\n'] + line@);
            }
        }
    } else {
        out.clear();
        push_all(out, &line);
        *started = true;
        *pending_blank = false;
        assert(out@ =~= line@);
    }
}

/// `value` laid out as Markdown: lines collapsed and trimmed, leading and trailing blank
/// lines dropped, runs of blank lines shrunk to one.
pub fn normalize_markdown_whitespace(value: &Vec<char>) -> (r: Vec<char>)
    ensures
        r@ == normalized_markdown(value@),
{
    let mut out: Vec<char> = Vec::new();
    let mut started = false;
    let mut pending_blank = false;
    let mut current: Vec<char> = Vec::new();
    let mut k: usize = 0;
    while k < value.len()
        invariant
            k <= value.len(),
            current@ == lines_fold(value@.take(k as int)).1,
            (out@, started, pending_blank) == markdown_fold(lines_fold(value@.take(k as int)).0),
        decreases value.len() - k,
    {
        assert(value@.take(k + 1).drop_last() =~= value@.take(k as int));
        let c = value[k];
        if c == '\n' {
            let line = if current.len() > 0 && current[current.len() - 1] == '\r' {
                slice_chars(&current, 0, current.len() - 1)
            } else {
                current.clone()
            };
            assert(line@ =~= strip_cr(current@));
            add_markdown_line(&mut out, &mut started, &mut pending_blank, &line);
            proof {
                let done = lines_fold(value@.take(k as int)).0;
                assert(done.push(line@).drop_last() =~= done);
            }
            current = Vec::new();
        } else {
            current.push(c);
        }
        k = k + 1;
    }
    assert(value@.take(value.len() as int) =~= value@);
    if current.len() > 0 {
        add_markdown_line(&mut out, &mut started, &mut pending_blank, &current);
        proof {
            let done = lines_fold(value@).0;
            assert(done.push(current@).drop_last() =~= done);
        }
    }
    out
}

pub const SCRIPT_TAG: &'static str = "script";

pub const ARTICLE_ELEMENT_ID: &'static str = "js_article";

pub const CONTENT_ELEMENT_ID: &'static str = "js_content";

pub const TOP_AD_AREA_ID: &'static str = "js_top_ad_area";

pub const TAGS_PREVIEW_TOAST_ID: &'static str = "js_tags_preview_toast";

pub const CONTENT_BOTTOM_AREA_ID: &'static str = "content_bottom_area";

pub const PC_QR_CODE_ID: &'static str = "js_pc_qr_code";

pub const STREAM_SLIDE_TIP_ID: &'static str = "wx_stream_article_slide_tip";

/// The Markdown of an article fragment: scripts removed, images turned into Markdown images,
/// the tags of `p`, `div`, `section`, `blockquote`, `li` and `br` turned into line breaks, the
/// remaining tags stripped, entities decoded and the lines laid out.
pub open spec fn fragment_markdown(h: Seq<char>) -> Seq<char> {
    let f = without_tag_elements(h, SCRIPT_TAG@);
    let f = markdown_images_from(f, 0);
    let f = tag_boundaries_from(f, seq!['p'], 0);
    let f = tag_boundaries_from(f, seq!['d', 'i', 'v'], 0);
    let f = tag_boundaries_from(f, seq!['s', 'e', 'c', 't', 'i', 'o', 'n'], 0);
    let f = tag_boundaries_from(f, seq!['b', 'l', 'o', 'c', 'k', 'q', 'u', 'o', 't', 'e'], 0);
    let f = tag_boundaries_from(f, seq!['l', 'i'], 0);
    let f = tag_boundaries_from(f, seq!['b', 'r'], 0);
    normalized_markdown(decode_entities(without_tags(f)))
}

/// The Markdown text of an HTML fragment.
pub fn html_fragment_to_markdown(html: &Vec<char>) -> (r: Vec<char>)
    ensures
        r@ == fragment_markdown(html@),
{
    let mut fragment = remove_element_by_tag(html, &chars_of(SCRIPT_TAG));
    fragment = replace_img_tags_with_markdown(&fragment);
    let p = vec!['p'];
    let div = vec!['d', 'i', 'v'];
    let section = vec!['s', 'e', 'c', 't', 'i', 'o', 'n'];
    let blockquote = vec!['b', 'l', 'o', 'c', 'k', 'q', 'u', 'o', 't', 'e'];
    let li = vec!['l', 'i'];
    let br = vec!['b', 'r'];
    assert(p@ =~= seq!['p'] && div@ =~= seq!['d', 'i', 'v'] && li@ =~= seq!['l', 'i'] && br@
        =~= seq!['b', 'r']);
    assert(section@ =~= seq!['s', 'e', 'c', 't', 'i', 'o', 'n']);
    assert(blockquote@ =~= seq!['b', 'l', 'o', 'c', 'k', 'q', 'u', 'o', 't', 'e']);
    fragment = replace_tag_boundaries(&fragment, &p);
    fragment = replace_tag_boundaries(&fragment, &div);
    fragment = replace_tag_boundaries(&fragment, &section);
    fragment = replace_tag_boundaries(&fragment, &blockquote);
    fragment = replace_tag_boundaries(&fragment, &li);
    fragment = replace_tag_boundaries(&fragment, &br);
    fragment = strip_tags(&fragment);
    fragment = decode_html_entities(&fragment);
    normalize_markdown_whitespace(&fragment)
}

/// `<t>a</t>`: the text `a` as one `t` element.
pub open spec fn element_text(t: Seq<char>, a: Seq<char>) -> Seq<char> {
    tag_text(t, false) + a + tag_text(t, true)
}

/// Text with no tag, entity or line break in it.
pub open spec fn is_plain_text(a: Seq<char>) -> bool {
    forall|i: int|
        0 <= i < a.len() ==> a[i] != '<' && a[i] != '>' && a[i] != '&' && a[i] != '\n' && a[i]
            != '\r'
}

/// The tags whose boundaries become line breaks in Markdown: `p`, `div`, `section`,
/// `blockquote`, `li` and `br`.
pub open spec fn is_block_tag(t: Seq<char>) -> bool {
    ||| t == seq!['p']
    ||| t == seq!['d', 'i', 'v']
    ||| t == seq!['s', 'e', 'c', 't', 'i', 'o', 'n']
    ||| t == seq!['b', 'l', 'o', 'c', 'k', 'q', 'u', 'o', 't', 'e']
    ||| t == seq!['l', 'i']
    ||| t == seq!['b', 'r']
}

/// Two sibling `t` elements holding `a` and `b`, with their tags turned into newlines.
spec fn block_pair_lines(a: Seq<char>, b: Seq<char>) -> Seq<char> {
    seq!['\n'] + a + seq!['\n', '\n'] + b + seq!['\n']
}

/// Where the tags of two sibling `t` elements stand.
proof fn lemma_block_pair_layout(t: Seq<char>, a: Seq<char>, b: Seq<char>)
    requires
        is_lower_name(t),
    ensures
        ({
            let h = element_text(t, a) + element_text(t, b);
            let t0 = tag_text(t, false);
            let t1 = tag_text(t, true);
            let c1 = t0.len() as int;
            let c2 = c1 + a.len() + t1.len();
            let c3 = c2 + t0.len();
            &&& h.len() == c3 + b.len() + t1.len()
            &&& h.subrange(0, c1) == Seq::<char>::empty() + t0
            &&& h.subrange(c1, c2) == a + t1
            &&& h.subrange(c2, c3) == Seq::<char>::empty() + t0
            &&& h.subrange(c3, h.len() as int) == b + t1
        }),
{
    let h = element_text(t, a) + element_text(t, b);
    let t0 = tag_text(t, false);
    let t1 = tag_text(t, true);
    let c1 = t0.len() as int;
    let c2 = c1 + a.len() + t1.len();
    let c3 = c2 + t0.len();
    assert(h.subrange(0, c1) =~= Seq::<char>::empty() + t0);
    assert(h.subrange(c1, c2) =~= a + t1);
    assert(h.subrange(c2, c3) =~= Seq::<char>::empty() + t0);
    assert(h.subrange(c3, h.len() as int) =~= b + t1);
}

/// Every `<` in two sibling `t` elements opens one of their four tags.
proof fn lemma_block_pair_tag_starts(t: Seq<char>, a: Seq<char>, b: Seq<char>, j: int)
    requires
        is_lower_name(t),
        is_plain_text(a),
        is_plain_text(b),
        0 <= j < (element_text(t, a) + element_text(t, b)).len(),
        (element_text(t, a) + element_text(t, b))[j] == '<',
    ensures
        ({
            let h = element_text(t, a) + element_text(t, b);
            ||| (j + tag_text(t, false).len() <= h.len() && h.subrange(
                j,
                j + tag_text(t, false).len(),
            ) == tag_text(t, false))
            ||| (j + tag_text(t, true).len() <= h.len() && h.subrange(
                j,
                j + tag_text(t, true).len(),
            ) == tag_text(t, true))
        }),
{
    let h = element_text(t, a) + element_text(t, b);
    let e = Seq::<char>::empty();
    let t0 = tag_text(t, false);
    let t1 = tag_text(t, true);
    let c1 = t0.len() as int;
    let c2 = c1 + a.len() + t1.len();
    let c3 = c2 + t0.len();
    lemma_block_pair_layout(t, a, b);
    if j < c1 {
        lemma_lt_over_tag(h, 0, e, t, false, j);
    } else if j < c2 {
        lemma_lt_over_tag(h, c1, a, t, true, j);
    } else if j < c3 {
        lemma_lt_over_tag(h, c2, e, t, false, j);
    } else {
        lemma_lt_over_tag(h, c3, b, t, true, j);
    }
}

/// One pass of turning the boundaries of `u` elements into newlines over two sibling `t`
/// elements: they become lines when `u` is `t`, and stay as they are otherwise.
proof fn lemma_block_pair_pass(t: Seq<char>, a: Seq<char>, b: Seq<char>, u: Seq<char>)
    requires
        is_lower_name(t),
        is_lower_name(u),
        is_plain_text(a),
        is_plain_text(b),
    ensures
        tag_boundaries_from(element_text(t, a) + element_text(t, b), u, 0) == (if u == t {
            block_pair_lines(a, b)
        } else {
            element_text(t, a) + element_text(t, b)
        }),
{
    let h = element_text(t, a) + element_text(t, b);
    let e = Seq::<char>::empty();
    let t0 = tag_text(t, false);
    let t1 = tag_text(t, true);
    let c1 = t0.len() as int;
    let c2 = c1 + a.len() + t1.len();
    let c3 = c2 + t0.len();
    let c4 = h.len() as int;
    lemma_block_pair_layout(t, a, b);
    lemma_tag_boundaries_over_tag(h, u, 0, e, t, false);
    lemma_tag_boundaries_over_tag(h, u, c1, a, t, true);
    lemma_tag_boundaries_over_tag(h, u, c2, e, t, false);
    lemma_tag_boundaries_over_tag(h, u, c3, b, t, true);
    lemma_tag_boundaries_plain(h, u, c4);
    assert(h.subrange(c4, c4) =~= e);
    if u == t {
        assert(tag_boundaries_from(h, u, 0) =~= block_pair_lines(a, b));
    } else {
        assert(tag_boundaries_from(h, u, 0) =~= h);
    }
}

/// The same pass over a text that is either the two elements or already their lines.
proof fn lemma_block_pair_pass_from(
    t: Seq<char>,
    a: Seq<char>,
    b: Seq<char>,
    u: Seq<char>,
    f: Seq<char>,
)
    requires
        is_lower_name(t),
        is_lower_name(u),
        is_plain_text(a),
        is_plain_text(b),
        f == element_text(t, a) + element_text(t, b) || f == block_pair_lines(a, b),
    ensures
        tag_boundaries_from(f, u, 0) == (if f == block_pair_lines(a, b) || u == t {
            block_pair_lines(a, b)
        } else {
            element_text(t, a) + element_text(t, b)
        }),
{
    let n = block_pair_lines(a, b);
    if f == n {
        assert forall|j: int| 0 <= j < n.len() implies n[j] != '<' by {
            if 1 <= j < 1 + a.len() {
                assert(n[j] == a[j - 1]);
            } else if 3 + a.len() <= j < 3 + a.len() + b.len() {
                assert(n[j] == b[j - 3 - a.len()]);
            }
        }
        lemma_tag_boundaries_plain(n, u, 0);
        assert(n.subrange(0, n.len() as int) =~= n);
    } else {
        lemma_block_pair_pass(t, a, b, u);
    }
}

/// The Markdown lines of two paragraphs.
proof fn lemma_block_pair_markdown(a: Seq<char>, b: Seq<char>)
    requires
        is_plain_text(a),
        is_plain_text(b),
        markdown_line(a).len() > 0,
        markdown_line(b).len() > 0,
    ensures
        normalized_markdown(block_pair_lines(a, b)) == markdown_line(a) + seq!['\n', '\n']
            + markdown_line(b),
{
    let e = Seq::<char>::empty();
    assert forall|i: int| 0 <= i < a.len() implies a[i] != '\n' by {}
    assert forall|i: int| 0 <= i < b.len() implies b[i] != '\n' by {}
    assert(lines_fold(e) == (Seq::<Seq<char>>::empty(), e));
    let x1 = e.push('\n');
    lemma_lines_fold_newline(e);
    assert(strip_cr(e) == e);
    let x2 = x1 + a;
    lemma_lines_fold_append(x1, a);
    assert(e + a =~= a);
    let x3 = x2.push('\n');
    lemma_lines_fold_newline(x2);
    assert(strip_cr(a) == a) by {
        if a.len() > 0 {
            assert(a[a.len() - 1] != '\r');
        }
    }
    let x4 = x3.push('\n');
    lemma_lines_fold_newline(x3);
    let x5 = x4 + b;
    lemma_lines_fold_append(x4, b);
    assert(e + b =~= b);
    let x6 = x5.push('\n');
    lemma_lines_fold_newline(x5);
    assert(strip_cr(b) == b) by {
        if b.len() > 0 {
            assert(b[b.len() - 1] != '\r');
        }
    }
    assert(x6 =~= block_pair_lines(a, b));
    let ls = lines(block_pair_lines(a, b));
    assert(ls =~= seq![e, a, e, b]);
    assert(markdown_line(e) =~= e) by {
        assert(crate::text::collapse_fold(e) == (e, false));
    }
    assert(ls.drop_last() =~= seq![e, a, e]);
    assert(seq![e, a, e].drop_last() =~= seq![e, a]);
    assert(seq![e, a].drop_last() =~= seq![e]);
    assert(seq![e].drop_last() =~= Seq::<Seq<char>>::empty());
    assert(markdown_fold(Seq::<Seq<char>>::empty()) == (e, false, false));
    assert(seq![e].last() == e);
    assert(markdown_fold(seq![e]) == (e, false, false));
    assert(markdown_fold(seq![e, a]) == (markdown_line(a), true, false));
    assert(markdown_fold(seq![e, a, e]) == (markdown_line(a), true, true));
    assert(markdown_fold(ls) == (markdown_line(a) + seq!['\n', '\n'] + markdown_line(b), true, false));
}

/// Block boundaries survive the Markdown conversion: for each of the tags `p`, `div`,
/// `section`, `blockquote`, `li` and `br`, two sibling elements holding plain texts `a` and
/// `b` become two paragraphs, the Markdown lines of `a` and `b` with a blank line between
/// them. The texts of two sibling elements never end up on one line.
pub proof fn law_block_elements_become_paragraphs(t: Seq<char>, a: Seq<char>, b: Seq<char>)
    requires
        is_block_tag(t),
        is_plain_text(a),
        is_plain_text(b),
        markdown_line(a).len() > 0,
        markdown_line(b).len() > 0,
    ensures
        fragment_markdown(element_text(t, a) + element_text(t, b)) == markdown_line(a) + seq![
            '\n',
            '\n',
        ] + markdown_line(b),
        markdown_line(a) == a && markdown_line(b) == b ==> fragment_markdown(
            element_text(t, a) + element_text(t, b),
        ) == a + seq!['\n', '\n'] + b,
{
    let h = element_text(t, a) + element_text(t, b);
    let n = block_pair_lines(a, b);
    let p = seq!['p'];
    let div = seq!['d', 'i', 'v'];
    let section = seq!['s', 'e', 'c', 't', 'i', 'o', 'n'];
    let blockquote = seq!['b', 'l', 'o', 'c', 'k', 'q', 'u', 'o', 't', 'e'];
    let li = seq!['l', 'i'];
    let br = seq!['b', 'r'];
    let script = seq!['s', 'c', 'r', 'i', 'p', 't'];
    assert(is_lower_name(p) && is_lower_name(div) && is_lower_name(section));
    assert(is_lower_name(blockquote) && is_lower_name(li) && is_lower_name(br));
    assert(is_lower_name(script));
    assert(is_lower_name(t));
    assert(t[0] != 'i');
    assert(script != t) by {
        if script == t {
            assert(script.len() == t.len());
        }
    }
    // No script element: every `<` opens one of the block tags.
    reveal_strlit("script");
    assert(SCRIPT_TAG@ =~= script);
    assert forall|j: int| 0 <= j implies !starts_with_tag(h, j, script, false) by {
        if starts_with_tag(h, j, script, false) {
            lemma_matches_char(h, j, '<');
            lemma_block_pair_tag_starts(t, a, b, j);
            if j + tag_text(t, false).len() <= h.len() && h.subrange(
                j,
                j + tag_text(t, false).len(),
            ) == tag_text(t, false) {
                lemma_tag_at(h, j, t, false, script);
            } else {
                lemma_tag_at(h, j, t, true, script);
            }
        }
    }
    lemma_first_tag_start_none(h, script, 0);
    assert(without_tag_elements(h, SCRIPT_TAG@) == h);
    // No image: the character after each `<` is `/` or the tag's first letter.
    let img = seq!['<', 'i', 'm', 'g'];
    lemma_find_from(h, img, 0);
    if let Some(i) = find_from(h, img, 0) {
        assert(h.subrange(i, i + 4)[0] == h[i]);
        assert(h.subrange(i, i + 4)[1] == h[i + 1]);
        lemma_block_pair_tag_starts(t, a, b, i);
        if i + tag_text(t, false).len() <= h.len() && h.subrange(i, i + tag_text(t, false).len())
            == tag_text(t, false) {
            assert(h.subrange(i, i + tag_text(t, false).len())[1] == h[i + 1]);
            assert(tag_text(t, false)[1] == t[0]);
        } else {
            assert(h.subrange(i, i + tag_text(t, true).len())[1] == h[i + 1]);
            assert(tag_text(t, true)[1] == '/');
        }
    }
    assert(markdown_images_from(h, 0) =~= h);
    // The six passes: the tags of `t` become newlines, the others find nothing.
    lemma_block_pair_pass_from(t, a, b, p, h);
    let f1 = tag_boundaries_from(h, p, 0);
    lemma_block_pair_pass_from(t, a, b, div, f1);
    let f2 = tag_boundaries_from(f1, div, 0);
    lemma_block_pair_pass_from(t, a, b, section, f2);
    let f3 = tag_boundaries_from(f2, section, 0);
    lemma_block_pair_pass_from(t, a, b, blockquote, f3);
    let f4 = tag_boundaries_from(f3, blockquote, 0);
    lemma_block_pair_pass_from(t, a, b, li, f4);
    let f5 = tag_boundaries_from(f4, li, 0);
    lemma_block_pair_pass_from(t, a, b, br, f5);
    let f6 = tag_boundaries_from(f5, br, 0);
    assert(f6 == n);
    // No tag or entity is left.
    assert forall|j: int| 0 <= j < n.len() implies n[j] != '<' && n[j] != '>' && n[j] != '&' by {
        if 1 <= j < 1 + a.len() {
            assert(n[j] == a[j - 1]);
        } else if 3 + a.len() <= j < 3 + a.len() + b.len() {
            assert(n[j] == b[j - 3 - a.len()]);
        }
    }
    lemma_without_tags_plain(n);
    lemma_replace_all_absent(n, seq!['&', 'n', 'b', 's', 'p', ';'], seq![' ']);
    lemma_replace_all_absent(n, seq!['&', 'a', 'm', 'p', ';'], seq!['&']);
    lemma_replace_all_absent(n, seq!['&', 'l', 't', ';'], seq!['<']);
    lemma_replace_all_absent(n, seq!['&', 'g', 't', ';'], seq!['>']);
    lemma_replace_all_absent(n, seq!['&', 'q', 'u', 'o', 't', ';'], seq!['"']);
    lemma_replace_all_absent(n, seq!['&', '#', '3', '9', ';'], seq!['\'']);
    assert(decode_entities(n) == n);
    lemma_block_pair_markdown(a, b);
}

/// The article HTML kept for archiving: the `js_article` element (else the whole page)
/// without scripts and the page's ad, toast, bottom bar, QR code and slide tip elements, the
/// `style` attribute removed from `js_content`, and images pointed at their local assets.
pub open spec fn cleaned_article(raw: Seq<char>, m: Map<Seq<char>, Seq<char>>) -> Seq<char> {
    let a = match extract_element(raw, ARTICLE_ELEMENT_ID@) {
        Some(e) => e,
        None => raw,
    };
    let a = without_tag_elements(a, SCRIPT_TAG@);
    let a = without_id_elements(a, TOP_AD_AREA_ID@);
    let a = without_id_elements(a, TAGS_PREVIEW_TOAST_ID@);
    let a = without_id_elements(a, CONTENT_BOTTOM_AREA_ID@);
    let a = without_id_elements(a, PC_QR_CODE_ID@);
    let a = without_id_elements(a, STREAM_SLIDE_TIP_ID@);
    let a = without_element_attribute(a, CONTENT_ELEMENT_ID@, seq!['s', 't', 'y', 'l', 'e']);
    local_images_from(a, m, 0)
}

/// The article HTML of a downloaded page, cleaned and pointed at local assets.
pub fn clean_article_html(raw_html: &Vec<char>, asset_map: &AssetReferenceMap) -> (r: Vec<char>)
    ensures
        r@ == cleaned_article(raw_html@, asset_map.map()),
{
    let mut article_html = match extract_element_by_id(raw_html, &chars_of(ARTICLE_ELEMENT_ID)) {
        Some(e) => e,
        None => slice_chars(raw_html, 0, raw_html.len()),
    };
    assert(raw_html@.subrange(0, raw_html@.len() as int) =~= raw_html@);
    article_html = remove_element_by_tag(&article_html, &chars_of(SCRIPT_TAG));
    article_html = remove_element_by_id(&article_html, &chars_of(TOP_AD_AREA_ID));
    article_html = remove_element_by_id(&article_html, &chars_of(TAGS_PREVIEW_TOAST_ID));
    article_html = remove_element_by_id(&article_html, &chars_of(CONTENT_BOTTOM_AREA_ID));
    article_html = remove_element_by_id(&article_html, &chars_of(PC_QR_CODE_ID));
    article_html = remove_element_by_id(&article_html, &chars_of(STREAM_SLIDE_TIP_ID));
    let style = vec!['s', 't', 'y', 'l', 'e'];
    assert(style@ =~= seq!['s', 't', 'y', 'l', 'e']);
    article_html = remove_attribute_from_element_by_id(
        &article_html,
        &chars_of(CONTENT_ELEMENT_ID),
        &style,
    );
    rewrite_img_tags(&article_html, asset_map)
}

/// The Markdown document of an article: `# title`, a blank line, the Markdown of its
/// `js_content` element (else of the whole HTML), ending in a newline.
pub open spec fn markdown_document(title: Seq<char>, article_html: Seq<char>) -> Seq<char> {
    let content = match extract_element(article_html, CONTENT_ELEMENT_ID@) {
        Some(c) => c,
        None => article_html,
    };
    let md = seq!['#', ' '] + title + seq!['\n', '\n'] + fragment_markdown(content);
    if md.len() > 0 && md.last() == '\n' {
        md
    } else {
        md.push('\n')
    }
}

/// The Markdown export of an article from its cleaned HTML.
pub fn render_markdown(article: &ArchiveArticle, article_html: &Vec<char>) -> (r: String)
    ensures
        r@ == markdown_document(article.title@, article_html@),
{
    let content = match extract_element_by_id(article_html, &chars_of(CONTENT_ELEMENT_ID)) {
        Some(c) => c,
        None => slice_chars(article_html, 0, article_html.len()),
    };
    assert(article_html@.subrange(0, article_html@.len() as int) =~= article_html@);
    let mut markdown = vec!['#', ' '];
    push_all(&mut markdown, &chars_of(article.title.as_str()));
    markdown.push('\n');
    markdown.push('\n');
    push_all(&mut markdown, &html_fragment_to_markdown(&content));
    assert(markdown@ =~= seq!['#', ' '] + article.title@ + seq!['\n', '\n'] + fragment_markdown(
        content@,
    ));
    if !(markdown.len() > 0 && markdown[markdown.len() - 1] == '\n') {
        markdown.push('\n');
    }
    string_of(markdown.as_slice())
}

/// The standalone HTML page written around an exported article, up to the article.
pub const HTML_DOCUMENT_HEAD: &'static str = "<!doctype html>\n<html lang=\"zh-CN\">\n<head>\n  <meta charset=\"utf-8\">\n  <meta name=\"viewport\" content=\"width=device-width, initial-scale=1\">\n  <meta name=\"referrer\" content=\"no-referrer\">\n  <style>\n    body {\n      margin: 0 auto;\n      max-width: 720px;\n      padding: 32px 20px;\n      font-family: system-ui, -apple-system, BlinkMacSystemFont, \"Segoe UI\", sans-serif;\n      line-height: 1.7;\n      color: #1f2a24;\n    }\n    img {\n      max-width: 100%;\n      height: auto;\n    }\n  </style>\n</head>\n<body>\n";

/// The standalone HTML page written around an exported article, after the article.
pub const HTML_DOCUMENT_TAIL: &'static str = "\n</body>\n</html>\n";

/// The standalone HTML page of an article: the page head, the trimmed article HTML, the page
/// tail.
pub fn render_html_document(article_html: &Vec<char>) -> (r: String)
    ensures
        r@ == HTML_DOCUMENT_HEAD@ + trim(article_html@) + HTML_DOCUMENT_TAIL@,
{
    let mut page = chars_of(HTML_DOCUMENT_HEAD);
    push_all(&mut page, &trim_chars(article_html));
    push_all(&mut page, &chars_of(HTML_DOCUMENT_TAIL));
    string_of(page.as_slice())
}

} // verus!

verus! {

/// The export formats of an article.
#[derive(Clone, Copy, Debug, Eq, PartialEq, Structural)]
pub enum ArticleExportFormat {
    Markdown,
    Html,
}

#[derive(Clone, Debug, Eq, PartialEq)]
pub struct ArticleExportRequest {
    pub article_id: String,
    pub formats: Vec<ArticleExportFormat>,
}

#[derive(Clone, Debug, Eq, PartialEq)]
pub struct ArticleExportOutcome {
    pub article_id: String,
    pub source_html_file: String,
    pub markdown_file: Option<String>,
    pub html_file: Option<String>,
    pub task_id: String,
}

#[derive(Clone, Debug, Eq, PartialEq)]
pub struct ArticleArchivePreviewRequest {
    pub article_id: String,
}

#[derive(Clone, Debug, Eq, PartialEq)]
pub struct ArticleArchivePreview {
    pub article_id: String,
    pub title: String,
    pub source_url: String,
    pub source_html_file: String,
    pub html: String,
}

/// The reasons, decided from the archive's records, for which an export or a preview fails.
#[derive(Clone, Debug, Eq, PartialEq)]
pub enum ArticleExportError {
    ArticleNotFound(String),
    EmptyFormatList,
    MissingDownloadedHtml { article_id: String, path: String },
}

impl ArticleExportError {
    /// The message shown for the error.
    pub fn message(&self) -> (r: String)
        ensures
            self matches ArticleExportError::ArticleNotFound(id) ==> r@
                == "article archive was not found: "@ + id@,
            self is EmptyFormatList ==> r@ == "at least one export format is required"@,
            self matches ArticleExportError::MissingDownloadedHtml { article_id, path } ==> r@
                == "downloaded article HTML is missing for "@ + article_id@ + ": "@ + path@,
    {
        match self {
            ArticleExportError::ArticleNotFound(article_id) => {
                let mut out = chars_of("article archive was not found: ");
                push_all(&mut out, &chars_of(article_id.as_str()));
                string_of(out.as_slice())
            },
            ArticleExportError::EmptyFormatList => String::from_str(
                "at least one export format is required",
            ),
            ArticleExportError::MissingDownloadedHtml { article_id, path } => {
                let mut out = chars_of("downloaded article HTML is missing for ");
                push_all(&mut out, &chars_of(article_id.as_str()));
                push_all(&mut out, &chars_of(": "));
                push_all(&mut out, &chars_of(path.as_str()));
                string_of(out.as_slice())
            },
        }
    }
}

/// The directory, relative to the archive, that exports are written to.
pub const EXPORT_DIR: &'static str = "exports";

/// The directory, relative to the archive, that downloaded assets are kept in.
pub const ASSET_DIR: &'static str = "assets";

/// The placeholder path reported when an article has no downloaded HTML file on record.
pub const EMPTY_HTML_FILE: &'static str = "(empty html_file)";

/// The directory of an article's assets: `assets/<safe account>/<safe article>`.
pub open spec fn article_asset_dir(target_account_id: Seq<char>, article_id: Seq<char>) -> Seq<char> {
    crate::archive_store::join_path(
        crate::archive_store::join_path(
            ASSET_DIR@,
            safe_segment(target_account_id, seq!['i', 't', 'e', 'm']),
        ),
        safe_segment(article_id, seq!['i', 't', 'e', 'm']),
    )
}

/// The asset map after the asset files `names` of a directory are entered, in order: each name
/// maps to the reference of `asset_dir/name` from `export_dir`, and so does the name without
/// its numbering prefix.
pub open spec fn asset_map_of(asset_dir: Seq<char>, export_dir: Seq<char>, names: Seq<Seq<char>>) -> Map<
    Seq<char>,
    Seq<char>,
>
    decreases names.len(),
{
    if names.len() == 0 {
        Map::empty()
    } else {
        let m = asset_map_of(asset_dir, export_dir, names.drop_last());
        let name = names.last();
        let reference = html_reference(
            relative_path_of(export_dir, crate::archive_store::join_path(asset_dir, name)),
        );
        let m = m.insert(name, reference);
        match numbered_prefix_rest(name) {
            Some(rest) => m.insert(rest, reference),
            None => m,
        }
    }
}

/// The asset map of an article whose asset directory holds the files `file_names`, for
/// exports written to `export_dir`.
pub fn asset_reference_map(article: &ArchiveArticle, export_dir: &str, file_names: &Vec<String>) -> (r:
    AssetReferenceMap)
    ensures
        r.map() == asset_map_of(
            article_asset_dir(article.target_account_id@, article.article_id@),
            export_dir@,
            file_names@.map_values(|n: String| n@),
        ),
{
    let account_segment = string_of(
        safe_file_segment(&chars_of(article.target_account_id.as_str())).as_slice(),
    );
    let article_segment = string_of(
        safe_file_segment(&chars_of(article.article_id.as_str())).as_slice(),
    );
    let account_dir = crate::archive_store::join_path_exec(ASSET_DIR, account_segment.as_str());
    let asset_dir = crate::archive_store::join_path_exec(account_dir.as_str(), article_segment.as_str());
    let export_chars = chars_of(export_dir);
    let ghost names = file_names@.map_values(|n: String| n@);
    let mut map = AssetReferenceMap::new();
    let mut k: usize = 0;
    while k < file_names.len()
        invariant
            k <= file_names.len(),
            names == file_names@.map_values(|n: String| n@),
            export_chars@ == export_dir@,
            asset_dir@ == article_asset_dir(article.target_account_id@, article.article_id@),
            map.map() == asset_map_of(asset_dir@, export_dir@, names.take(k as int)),
        decreases file_names.len() - k,
    {
        assert(names.take(k + 1).drop_last() =~= names.take(k as int));
        let name = &file_names[k];
        let relative_file = crate::archive_store::join_path_exec(asset_dir.as_str(), name.as_str());
        let reference = path_to_html_reference(
            &relative_path(&export_chars, &chars_of(relative_file.as_str())),
        );
        let name_chars = chars_of(name.as_str());
        map.insert(name_chars.clone(), reference.clone());
        match strip_numbered_asset_prefix(&name_chars) {
            Some(rest) => {
                map.insert(rest, reference);
            },
            None => {},
        }
        k = k + 1;
    }
    assert(names.take(file_names.len() as int) =~= names);
    map
}

/// The export files of an article: for each requested format, the path relative to the
/// archive and the content.
#[derive(Clone, Debug, Eq, PartialEq)]
pub struct ArticleExportFiles {
    pub markdown: Option<(String, String)>,
    pub html: Option<(String, String)>,
}

/// Whether the formats hold `format`.
pub open spec fn has_format(formats: Seq<ArticleExportFormat>, format: ArticleExportFormat) -> bool {
    formats.contains(format)
}

fn contains_format(formats: &Vec<ArticleExportFormat>, format: ArticleExportFormat) -> (r: bool)
    ensures
        r == has_format(formats@, format),
{
    let mut k: usize = 0;
    while k < formats.len()
        invariant
            k <= formats.len(),
            forall|m: int| 0 <= m < k ==> formats@[m] != format,
        decreases formats.len() - k,
    {
        if formats[k] == format {
            assert(formats@[k as int] == format);
            return true;
        }
        k = k + 1;
    }
    false
}

/// The path of an export file: `exports/<stem><extension>`.
pub open spec fn export_path(stem: Seq<char>, extension: Seq<char>) -> Seq<char> {
    crate::archive_store::join_path(EXPORT_DIR@, stem + extension)
}

/// Every character that the making of a segment writes is safe for file names.
proof fn lemma_segment_fold_safe(s: Seq<char>)
    ensures
        forall|i: int|
            0 <= i < segment_fold(s).0.len() ==> !is_unsafe_file_char(#[trigger] segment_fold(s).0[i]),
    decreases s.len(),
{
    if s.len() > 0 {
        lemma_segment_fold_safe(s.drop_last());
        let out = segment_fold(s.drop_last()).0;
        let c = if is_unsafe_file_char(s.last()) {
            '_'
        } else {
            s.last()
        };
        assert(!is_unsafe_file_char(c));
        assert forall|i: int| 0 <= i < out.push(c).len() implies !is_unsafe_file_char(
            #[trigger] out.push(c)[i],
        ) by {
            if i < out.len() {
                assert(out.push(c)[i] == out[i]);
            }
        }
    }
}

/// Trimming starts inside the text, at a character that is kept.
proof fn lemma_punct_start(s: Seq<char>, i: int, with_space: bool)
    requires
        0 <= i <= s.len(),
    ensures
        i <= crate::text::punct_start(s, i, with_space) <= s.len(),
        crate::text::punct_start(s, i, with_space) < s.len() ==> !crate::text::is_trimmed_punct(
            s[crate::text::punct_start(s, i, with_space)],
            with_space,
        ),
    decreases s.len() - i,
{
    if i < s.len() && crate::text::is_trimmed_punct(s[i], with_space) {
        lemma_punct_start(s, i + 1, with_space);
    }
}

/// Trimming ends between its start and the end of the text.
proof fn lemma_punct_end(s: Seq<char>, start: int, end: int, with_space: bool)
    requires
        0 <= start <= end <= s.len(),
    ensures
        start <= crate::text::punct_end(s, start, end, with_space) <= end,
    decreases end - start,
{
    if end > start && crate::text::is_trimmed_punct(s[end - 1], with_space) {
        lemma_punct_end(s, start, end - 1, with_space);
    }
}

/// A segment is never empty, holds only characters safe for file names and does not start
/// with `.`, when its default is such a text.
pub proof fn lemma_safe_segment(value: Seq<char>, default: Seq<char>)
    requires
        default.len() > 0,
        default[0] != '.',
        forall|i: int| 0 <= i < default.len() ==> !is_unsafe_file_char(#[trigger] default[i]),
    ensures
        safe_segment(value, default).len() > 0,
        safe_segment(value, default)[0] != '.',
        forall|i: int|
            0 <= i < safe_segment(value, default).len() ==> !is_unsafe_file_char(
                #[trigger] safe_segment(value, default)[i],
            ),
{
    let f = segment_fold(value).0;
    lemma_segment_fold_safe(value);
    let a = crate::text::punct_start(f, 0, true);
    lemma_punct_start(f, 0, true);
    lemma_punct_end(f, a, f.len() as int, true);
    let t = trim_punct(f, true);
    assert(forall|i: int| 0 <= i < t.len() ==> t[i] == f[a + i]);
    if t.len() > 0 {
        assert(t[0] == f[a]);
        if t.len() > 96 {
            assert(t.take(96)[0] == t[0]);
            assert(forall|i: int| 0 <= i < 96 ==> t.take(96)[i] == t[i]);
        }
    }
}

/// The pieces of `p + b` when `b` holds no separator: those of `p`, with `b` added to the
/// last one.
proof fn lemma_split_fold_append(p: Seq<char>, b: Seq<char>, sep: char)
    requires
        forall|i: int| 0 <= i < b.len() ==> b[i] != sep,
    ensures
        split_fold_of(p + b, sep) == (split_fold_of(p, sep).0, split_fold_of(p, sep).1 + b),
    decreases b.len(),
{
    if b.len() == 0 {
        assert(p + b =~= p);
        assert(split_fold_of(p, sep).1 + b =~= split_fold_of(p, sep).1);
    } else {
        let b1 = b.drop_last();
        lemma_split_fold_append(p, b1, sep);
        assert((p + b).drop_last() =~= p + b1);
        assert((p + b).last() == b.last());
        assert(split_fold_of(p, sep).1 + b1.push(b.last()) =~= split_fold_of(p, sep).1 + b);
        assert(b1.push(b.last()) =~= b);
        assert((split_fold_of(p, sep).1 + b1).push(b.last()) =~= split_fold_of(p, sep).1 + b);
    }
}

spec fn split_fold_of(s: Seq<char>, sep: char) -> (Seq<Seq<char>>, Seq<char>) {
    crate::text::split_fold(s, sep)
}

/// Every export is written inside the export directory, under one file name that holds no
/// character unsafe for file names and does not start with `.`; the path is a relative file
/// reference that the archive store accepts.
pub proof fn law_export_paths_are_safe(title: Seq<char>, article_id: Seq<char>, extension: Seq<char>)
    requires
        extension == seq!['.', 'm', 'd'] || extension == seq!['.', 'h', 't', 'm', 'l'],
    ensures
        ({
            let name = export_stem(title, article_id) + extension;
            &&& export_path(export_stem(title, article_id), extension) == EXPORT_DIR@ + seq!['/']
                + name
            &&& name[0] != '.'
            &&& forall|i: int| 0 <= i < name.len() ==> !is_unsafe_file_char(#[trigger] name[i])
            &&& crate::archive_store::is_safe_relative(
                export_path(export_stem(title, article_id), extension),
            )
        }),
{
    reveal_strlit("exports");
    let d1 = seq!['a', 'r', 't', 'i', 'c', 'l', 'e'];
    let d2 = seq!['i', 't', 'e', 'm'];
    assert(forall|i: int| 0 <= i < d1.len() ==> !is_unsafe_file_char(#[trigger] d1[i]));
    assert(forall|i: int| 0 <= i < d2.len() ==> !is_unsafe_file_char(#[trigger] d2[i]));
    lemma_safe_segment(title, d1);
    lemma_safe_segment(article_id, d2);
    let s1 = safe_segment(title, d1);
    let s2 = safe_segment(article_id, d2);
    let stem = export_stem(title, article_id);
    assert(stem == s1 + seq!['-'] + s2);
    let name = stem + extension;
    assert forall|i: int| 0 <= i < name.len() implies !is_unsafe_file_char(#[trigger] name[i]) by {
        if i < s1.len() {
            assert(name[i] == s1[i]);
        } else if i == s1.len() {
            assert(name[i] == '-');
        } else if i < stem.len() {
            assert(name[i] == s2[i - s1.len() - 1]);
        } else {
            assert(name[i] == extension[i - stem.len()]);
        }
    }
    assert(name[0] == s1[0]);
    let dir = EXPORT_DIR@;
    assert(dir == seq!['e', 'x', 'p', 'o', 'r', 't', 's']);
    let path = export_path(stem, extension);
    assert(path == dir + seq!['/'] + name);
    assert(forall|i: int| 0 <= i < name.len() ==> name[i] != '/');
    assert(forall|i: int| 0 <= i < dir.len() ==> dir[i] != '/');
    lemma_split_fold_append(seq![], dir, '/');
    assert(seq![] + dir =~= dir);
    assert(split_fold_of(seq![], '/') == (Seq::<Seq<char>>::empty(), Seq::<char>::empty()));
    assert(Seq::<char>::empty() + dir =~= dir);
    let dir_slash = dir + seq!['/'];
    assert(dir_slash.drop_last() =~= dir);
    assert(split_fold_of(dir_slash, '/') == (seq![dir], Seq::<char>::empty()));
    lemma_split_fold_append(dir_slash, name, '/');
    assert(Seq::<char>::empty() + name =~= name);
    let pieces = crate::text::split_on(path, '/');
    assert(pieces =~= seq![dir, name]);
    assert(pieces[1] != seq!['.', '.']);
    assert(crate::article_export::is_normal_piece(pieces[0]));
}

pub struct ArticleExportService;

impl ArticleExportService {
    pub fn new() -> Self {
        ArticleExportService
    }

    /// An export request needs at least one format.
    pub fn check_request(&self, request: &ArticleExportRequest) -> (r: Result<(), ArticleExportError>)
        ensures
            r is Err <==> request.formats@.len() == 0,
            r matches Err(e) ==> e == ArticleExportError::EmptyFormatList,
    {
        if request.formats.len() == 0 {
            Err(ArticleExportError::EmptyFormatList)
        } else {
            Ok(())
        }
    }

    /// The article's downloaded HTML file on record, or the error for an article without one.
    pub fn source_html_file(&self, article: &ArchiveArticle) -> (r: Result<String, ArticleExportError>)
        ensures
            article.html_file matches Some(f) ==> r == Ok::<String, ArticleExportError>(f),
            article.html_file is None ==> (r matches Err(
                ArticleExportError::MissingDownloadedHtml { article_id, path },
            ) && article_id@ == article.article_id@ && path@ == EMPTY_HTML_FILE@),
    {
        match &article.html_file {
            Some(f) => Ok(f.clone()),
            None => Err(
                ArticleExportError::MissingDownloadedHtml {
                    article_id: article.article_id.clone(),
                    path: String::from_str(EMPTY_HTML_FILE),
                },
            ),
        }
    }

    /// The export files of an article from its downloaded page `raw_html`: the cleaned article
    /// as Markdown under `exports/<stem>.md` and as a standalone page under
    /// `exports/<stem>.html`, each only when requested.
    pub fn export_files(
        &self,
        article: &ArchiveArticle,
        raw_html: &str,
        asset_map: &AssetReferenceMap,
        formats: &Vec<ArticleExportFormat>,
    ) -> (r: ArticleExportFiles)
        ensures
            ({
                let cleaned = cleaned_article(raw_html@, asset_map.map());
                let stem = export_stem(article.title@, article.article_id@);
                &&& has_format(formats@, ArticleExportFormat::Markdown) <==> r.markdown is Some
                &&& r.markdown matches Some((path, content)) ==> path@ == export_path(
                    stem,
                    seq!['.', 'm', 'd'],
                ) && content@ == markdown_document(article.title@, cleaned)
                &&& has_format(formats@, ArticleExportFormat::Html) <==> r.html is Some
                &&& r.html matches Some((path, content)) ==> path@ == export_path(
                    stem,
                    seq!['.', 'h', 't', 'm', 'l'],
                ) && content@ == HTML_DOCUMENT_HEAD@ + trim(cleaned) + HTML_DOCUMENT_TAIL@
            }),
    {
        let stem = export_file_stem(
            &chars_of(article.title.as_str()),
            &chars_of(article.article_id.as_str()),
        );
        let cleaned = clean_article_html(&chars_of(raw_html), asset_map);
        let markdown = if contains_format(formats, ArticleExportFormat::Markdown) {
            let mut name = stem.clone();
            name.push('.');
            name.push('m');
            name.push('d');
            assert(name@ =~= stem@ + seq!['.', 'm', 'd']);
            let path = crate::archive_store::join_path_exec(EXPORT_DIR, string_of(name.as_slice()).as_str());
            Some((path, render_markdown(article, &cleaned)))
        } else {
            None
        };
        let html = if contains_format(formats, ArticleExportFormat::Html) {
            let mut name = stem.clone();
            name.push('.');
            name.push('h');
            name.push('t');
            name.push('m');
            name.push('l');
            assert(name@ =~= stem@ + seq!['.', 'h', 't', 'm', 'l']);
            let path = crate::archive_store::join_path_exec(EXPORT_DIR, string_of(name.as_slice()).as_str());
            Some((path, render_html_document(&cleaned)))
        } else {
            None
        };
        ArticleExportFiles { markdown, html }
    }
}

pub struct ArticleArchivePreviewService;

impl ArticleArchivePreviewService {
    pub fn new() -> Self {
        ArticleArchivePreviewService
    }

    /// The preview of an archived article from its downloaded page: the cleaned article as a
    /// standalone page.
    pub fn preview(
        &self,
        article: &ArchiveArticle,
        source_html_file: &str,
        raw_html: &str,
        asset_map: &AssetReferenceMap,
    ) -> (r: ArticleArchivePreview)
        ensures
            r.article_id@ == article.article_id@,
            r.title@ == article.title@,
            r.source_url@ == article.source_url@,
            r.source_html_file@ == source_html_file@,
            r.html@ == HTML_DOCUMENT_HEAD@ + trim(cleaned_article(raw_html@, asset_map.map()))
                + HTML_DOCUMENT_TAIL@,
    {
        let cleaned = clean_article_html(&chars_of(raw_html), asset_map);
        ArticleArchivePreview {
            article_id: article.article_id.clone(),
            title: article.title.clone(),
            source_url: article.source_url.clone(),
            source_html_file: String::from_str(source_html_file),
            html: render_html_document(&cleaned),
        }
    }
}

} // verus!
