//! Saving one article by its URL: which URLs name a WeChat article, the id an article gets
//! from its URL, and the title it is saved under.
use vstd::prelude::*;

use crate::archive_store::{ArchiveArticle, ArchiveArticleInput, ArchiveStoreError};
use crate::text::{chars_of, find_from, join, starts_with, string_of, trim, views};
use crate::web_url::{
    parse_url, path_segments, url_fragment_cleared, url_https_scheme, url_parse,
    url_path_segments, url_with_https_scheme, url_without_fragment, ParsedUrl, ParsedUrlView,
};

verus! {

/// The target account under which single articles are archived.
pub const SINGLE_ARTICLE_TARGET_ACCOUNT_ID: &'static str = "single-article";

/// The host of WeChat article URLs.
pub const WECHAT_ARTICLE_HOST: &'static str = "mp.weixin.qq.com";

#[derive(Debug, Clone, Eq, PartialEq)]
pub enum SingleArticleWorkflowError {
    ArchiveStore(ArchiveStoreError),
    InvalidArticleUrl(String),
}

impl SingleArticleWorkflowError {
    /// The message shown for the error.
    pub fn message(&self) -> (r: String)
        ensures
            self matches SingleArticleWorkflowError::InvalidArticleUrl(v) ==> r@
                == "invalid WeChat article URL: "@ + v@,
    {
        match self {
            SingleArticleWorkflowError::ArchiveStore(e) => e.message(),
            SingleArticleWorkflowError::InvalidArticleUrl(v) => {
                let mut out = chars_of("invalid WeChat article URL: ");
                crate::text::push_all(&mut out, &chars_of(v.as_str()));
                string_of(out.as_slice())
            },
        }
    }
}

#[derive(Clone, Debug, Eq, PartialEq)]
pub struct SingleArticleSaveRequest {
    pub source_url: String,
    pub title: Option<String>,
}

#[derive(Clone, Debug, Eq, PartialEq)]
pub struct SingleArticleArchive {
    pub article_id: String,
    pub target_account_id: String,
    pub title: String,
    pub source_url: String,
    pub html_file: Option<String>,
    pub markdown_file: Option<String>,
}

impl SingleArticleArchive {
    /// The single article view of an archived article.
    pub fn from(article: ArchiveArticle) -> (r: Self)
        ensures
            r.article_id == article.article_id,
            r.target_account_id == article.target_account_id,
            r.title == article.title,
            r.source_url == article.source_url,
            r.html_file == article.html_file,
            r.markdown_file == article.markdown_file,
    {
        SingleArticleArchive {
            article_id: article.article_id,
            target_account_id: article.target_account_id,
            title: article.title,
            source_url: article.source_url,
            html_file: article.html_file,
            markdown_file: article.markdown_file,
        }
    }
}

/// A character that an id segment keeps as it is.
pub open spec fn is_id_char(c: char) -> bool {
    crate::text::is_ascii_alphanumeric(c) || c == '-' || c == '_' || c == '.'
}

/// Every character that an id segment does not keep becomes `_`.
pub open spec fn id_chars(s: Seq<char>) -> Seq<char> {
    s.map_values(|c: char| if is_id_char(c) { c } else { '_' })
}

/// Index of the first character at or after `i` that is not `.` or `_`.
pub open spec fn skip_dots(s: Seq<char>, i: int) -> int
    decreases s.len() - i,
{
    if i < 0 || i >= s.len() {
        i
    } else if s[i] == '.' || s[i] == '_' {
        skip_dots(s, i + 1)
    } else {
        i
    }
}

/// One past the last character before `end` (and at or after `start`) that is not `.` or `_`.
pub open spec fn trim_dots_end(s: Seq<char>, start: int, end: int) -> int
    decreases end - start,
{
    if end <= start {
        end
    } else if s[end - 1] == '.' || s[end - 1] == '_' {
        trim_dots_end(s, start, end - 1)
    } else {
        end
    }
}

/// `s` without `.` and `_` at either end.
pub open spec fn trim_dots(s: Seq<char>) -> Seq<char> {
    let a = skip_dots(s, 0);
    s.subrange(a, trim_dots_end(s, a, s.len() as int))
}

/// An id segment made from `value`: unsafe characters become `_`, `.` and `_` are trimmed at
/// both ends, and `default` stands in for nothing.
pub open spec fn safe_id_segment(value: Seq<char>, default: Seq<char>) -> Seq<char> {
    let t = trim_dots(id_chars(value));
    if t.len() == 0 {
        default
    } else {
        t
    }
}

proof fn lemma_skip_dots_bounds(s: Seq<char>, i: int)
    requires
        0 <= i <= s.len(),
    ensures
        i <= skip_dots(s, i) <= s.len(),
    decreases s.len() - i,
{
    if i < s.len() && (s[i] == '.' || s[i] == '_') {
        lemma_skip_dots_bounds(s, i + 1);
    }
}

proof fn lemma_trim_dots_end_bounds(s: Seq<char>, start: int, end: int)
    requires
        0 <= start <= end <= s.len(),
    ensures
        start <= trim_dots_end(s, start, end) <= end,
    decreases end - start,
{
    if end > start && (s[end - 1] == '.' || s[end - 1] == '_') {
        lemma_trim_dots_end_bounds(s, start, end - 1);
    }
}

/// The id segment made from `value`, or `default`.
pub fn safe_id_segment_exec(value: &str, default: &str) -> (r: String)
    ensures
        r@ == safe_id_segment(value@, default@),
{
    let cs = chars_of(value);
    let mut mapped: Vec<char> = Vec::new();
    let mut k: usize = 0;
    while k < cs.len()
        invariant
            k <= cs@.len(),
            mapped@ == id_chars(cs@.take(k as int)),
        decreases cs.len() - k,
    {
        let c = cs[k];
        let keep = (c >= 'a' && c <= 'z') || (c >= 'A' && c <= 'Z') || (c >= '0' && c <= '9')
            || c == '-' || c == '_' || c == '.';
        assert(keep == is_id_char(c));
        if keep {
            mapped.push(c);
        } else {
            mapped.push('_');
        }
        assert(mapped@ =~= id_chars(cs@.take(k as int + 1)));
        k = k + 1;
    }
    assert(cs@.take(cs@.len() as int) =~= cs@);
    let mut a: usize = 0;
    while a < mapped.len() && (mapped[a] == '.' || mapped[a] == '_')
        invariant
            a <= mapped@.len(),
            skip_dots(mapped@, 0) == skip_dots(mapped@, a as int),
        decreases mapped.len() - a,
    {
        a = a + 1;
    }
    let mut b: usize = mapped.len();
    while b > a && (mapped[b - 1] == '.' || mapped[b - 1] == '_')
        invariant
            a <= b <= mapped@.len(),
            trim_dots_end(mapped@, a as int, mapped@.len() as int) == trim_dots_end(
                mapped@,
                a as int,
                b as int,
            ),
        decreases b,
    {
        b = b - 1;
    }
    if a == b {
        String::from_str(default)
    } else {
        string_of(crate::text::slice_chars(&mapped, a, b).as_slice())
    }
}

/// The id segment of an article identity (`article` for nothing usable).
pub fn safe_article_id_segment(value: &str) -> (r: String)
    ensures
        r@ == safe_id_segment(value@, "article"@),
{
    safe_id_segment_exec(value, "article")
}

/// The last value of the query parameter `key` (later parameters override earlier ones).
pub open spec fn last_query_value(pairs: Seq<(Seq<char>, Seq<char>)>, key: Seq<char>) -> Option<
    Seq<char>,
>
    decreases pairs.len(),
{
    if pairs.len() == 0 {
        None
    } else if pairs.last().0 == key {
        Some(pairs.last().1)
    } else {
        last_query_value(pairs.drop_last(), key)
    }
}

/// The value of `key` if it holds more than white space.
pub open spec fn present_value(pairs: Seq<(Seq<char>, Seq<char>)>, key: Seq<char>) -> Option<
    Seq<char>,
> {
    match last_query_value(pairs, key) {
        Some(v) => if trim(v).len() > 0 {
            Some(v)
        } else {
            None
        },
        None => None,
    }
}

/// What identifies an article in its URL: `s-<slug>` for `/s/<slug>`, otherwise
/// `s-<mid>-<idx>-<sn>` from the query (with `mid` and `idx` only where present; `sn` is
/// required).
pub open spec fn article_identity_of(url: ParsedUrlView) -> Option<Seq<char>> {
    let segments = match path_segments(url.path) {
        Some(s) => s,
        None => Seq::empty(),
    };
    if segments.len() >= 2 && segments[0] == "s"@ && trim(segments[1]).len() > 0 {
        Some("s-"@ + segments[1])
    } else {
        match present_value(url.query_pairs, "sn"@) {
            Some(sn) => {
                let mid = match present_value(url.query_pairs, "mid"@) {
                    Some(m) => seq![m],
                    None => Seq::empty(),
                };
                let idx = match present_value(url.query_pairs, "idx"@) {
                    Some(i) => seq![i],
                    None => Seq::empty(),
                };
                Some("s-"@ + join(mid + idx + seq![sn], "-"@))
            },
            None => None,
        }
    }
}

fn last_query_value_exec(url: &ParsedUrl, key: &str) -> (r: Option<String>)
    ensures
        r matches Some(v) ==> last_query_value(url@.query_pairs, key@) == Some(v@),
        r is None ==> last_query_value(url@.query_pairs, key@) is None,
{
    let ghost pairs = url@.query_pairs;
    let mut found: Option<String> = None;
    let mut k: usize = 0;
    while k < url.query_pairs.len()
        invariant
            k <= url.query_pairs@.len(),
            pairs == url@.query_pairs,
            pairs.len() == url.query_pairs@.len(),
            found matches Some(v) ==> last_query_value(pairs.take(k as int), key@) == Some(v@),
            found is None ==> last_query_value(pairs.take(k as int), key@) is None,
        decreases url.query_pairs.len() - k,
    {
        assert(pairs.take(k as int + 1).drop_last() =~= pairs.take(k as int));
        assert(pairs.take(k as int + 1).last() == (
            url.query_pairs@[k as int].0@,
            url.query_pairs@[k as int].1@,
        ));
        if crate::archive_store::str_eq(url.query_pairs[k].0.as_str(), key) {
            found = Some(url.query_pairs[k].1.clone());
        }
        k = k + 1;
    }
    assert(pairs.take(pairs.len() as int) =~= pairs);
    found
}

fn present_value_exec(url: &ParsedUrl, key: &str) -> (r: Option<String>)
    ensures
        r matches Some(v) ==> present_value(url@.query_pairs, key@) == Some(v@),
        r is None ==> present_value(url@.query_pairs, key@) is None,
{
    match last_query_value_exec(url, key) {
        Some(v) => {
            if crate::text::trim_chars(&chars_of(v.as_str())).len() > 0 {
                Some(v)
            } else {
                None
            }
        },
        None => None,
    }
}

/// What identifies the article at `url`, if anything does.
pub fn article_identity(url: &ParsedUrl) -> (r: Option<String>)
    ensures
        r matches Some(v) ==> article_identity_of(url@) == Some(v@),
        r is None ==> article_identity_of(url@) is None,
{
    let path = chars_of(url.path.as_str());
    let segments = match url_path_segments(&path) {
        Some(s) => s,
        None => Vec::new(),
    };
    assert(views(segments@) == match path_segments(url@.path) {
        Some(s) => s,
        None => Seq::<Seq<char>>::empty(),
    }) by {
        if path_segments(url@.path) is None {
            assert(views(segments@) =~= Seq::<Seq<char>>::empty());
        }
    }
    assert(views(segments@).len() == segments@.len());
    if segments.len() >= 2 {
        let s_piece = chars_of("s");
        assert(views(segments@)[0] == segments@[0]@);
        assert(views(segments@)[1] == segments@[1]@);
        if crate::text::chars_eq(&segments[0], &s_piece) && crate::text::trim_chars(&segments[1]).len() > 0 {
            let mut out = chars_of("s-");
            crate::text::push_all(&mut out, &segments[1]);
            return Some(string_of(out.as_slice()));
        }
    }
    let sn = match present_value_exec(url, "sn") {
        Some(sn) => sn,
        None => {
            return None;
        },
    };
    let mut parts: Vec<Vec<char>> = Vec::new();
    if let Some(mid) = present_value_exec(url, "mid") {
        parts.push(chars_of(mid.as_str()));
    }
    let ghost after_mid = views(parts@);
    if let Some(idx) = present_value_exec(url, "idx") {
        parts.push(chars_of(idx.as_str()));
    }
    let ghost after_idx = views(parts@);
    parts.push(chars_of(sn.as_str()));
    let dash = chars_of("-");
    let joined = crate::text::join_chars(&parts, &dash);
    let mut out = chars_of("s-");
    crate::text::push_all(&mut out, &joined);
    proof {
        let mid = match present_value(url@.query_pairs, "mid"@) {
            Some(m) => seq![m],
            None => Seq::<Seq<char>>::empty(),
        };
        let idx = match present_value(url@.query_pairs, "idx"@) {
            Some(i) => seq![i],
            None => Seq::<Seq<char>>::empty(),
        };
        assert(after_mid =~= mid);
        assert(after_idx =~= mid + idx);
        assert(views(parts@) =~= mid + idx + seq![sn@]);
    }
    Some(string_of(out.as_slice()))
}

/// The URL a user entered, as it is parsed: trimmed, with `https:` before a leading `//` and
/// `https://` before text without a scheme.
pub open spec fn candidate_url(trimmed: Seq<char>) -> Seq<char> {
    if starts_with(trimmed, "//"@) {
        "https:"@ + trimmed
    } else if find_from(trimmed, "://"@, 0) is Some {
        trimmed
    } else {
        "https://"@ + trimmed
    }
}

/// The normalised article URL for `raw`: on the article host, with the `https` scheme and no
/// fragment, and naming an article; none for anything else.
pub open spec fn normalized_article_url(raw: Seq<char>) -> Option<ParsedUrlView> {
    let trimmed = trim(raw);
    if trimmed.len() == 0 {
        None
    } else {
        match url_parse(candidate_url(trimmed)) {
            Err(_) => None,
            Ok(u) => if u.host != Some(WECHAT_ARTICLE_HOST@) {
                None
            } else {
                let with_scheme = if u.scheme == "https"@ {
                    Some(u.serialization)
                } else {
                    url_https_scheme(u.serialization)
                };
                match with_scheme {
                    None => None,
                    Some(a) => match url_fragment_cleared(a) {
                        None => None,
                        Some(b) => match url_parse(b) {
                            Err(_) => None,
                            Ok(v) => if article_identity_of(v) is Some {
                                Some(v)
                            } else {
                                None
                            },
                        },
                    },
                }
            },
        }
    }
}

/// The normalised URL of a WeChat article, or an error that quotes `raw_url`.
pub fn normalize_wechat_article_url(raw_url: &str) -> (r: Result<
    ParsedUrl,
    SingleArticleWorkflowError,
>)
    ensures
        r matches Ok(u) ==> normalized_article_url(raw_url@) == Some(u@),
        r is Err ==> normalized_article_url(raw_url@) is None,
        r matches Err(e) ==> (e matches SingleArticleWorkflowError::InvalidArticleUrl(v) && v@
            == raw_url@),
{
    let invalid = SingleArticleWorkflowError::InvalidArticleUrl(String::from_str(raw_url));
    let trimmed = crate::text::trim_chars(&chars_of(raw_url));
    if trimmed.len() == 0 {
        return Err(invalid);
    }
    let slashes = chars_of("//");
    let scheme_sep = chars_of("://");
    let candidate = if crate::text::matches_at_exec(&trimmed, 0, &slashes) {
        let mut c = chars_of("https:");
        crate::text::push_all(&mut c, &trimmed);
        c
    } else if crate::text::find_chars(&trimmed, &scheme_sep, 0).is_some() {
        trimmed.clone()
    } else {
        let mut c = chars_of("https://");
        crate::text::push_all(&mut c, &trimmed);
        c
    };
    assert(candidate@ == candidate_url(trimmed@));
    let url = match parse_url(string_of(candidate.as_slice()).as_str()) {
        Ok(u) => u,
        Err(_) => {
            return Err(invalid);
        },
    };
    let on_host = match &url.host {
        Some(h) => crate::archive_store::str_eq(h.as_str(), WECHAT_ARTICLE_HOST),
        None => false,
    };
    if !on_host {
        return Err(invalid);
    }
    let with_scheme = if crate::archive_store::str_eq(url.scheme.as_str(), "https") {
        url.serialization.clone()
    } else {
        match url_with_https_scheme(url.serialization.as_str()) {
            Some(s) => s,
            None => {
                return Err(invalid);
            },
        }
    };
    let without_fragment = match url_without_fragment(with_scheme.as_str()) {
        Some(s) => s,
        None => {
            return Err(invalid);
        },
    };
    let normalized = match parse_url(without_fragment.as_str()) {
        Ok(u) => u,
        Err(_) => {
            return Err(invalid);
        },
    };
    if article_identity(&normalized).is_none() {
        return Err(invalid);
    }
    Ok(normalized)
}

/// The archive id of the article at a normalised URL: `single-` and the safe identity.
pub open spec fn article_id_of(url: ParsedUrlView) -> Option<Seq<char>> {
    match article_identity_of(url) {
        Some(identity) => Some("single-"@ + safe_id_segment(identity, "article"@)),
        None => None,
    }
}

/// The archive id of the article at `url`.
pub fn article_id_from_url(url: &ParsedUrl) -> (r: Result<String, SingleArticleWorkflowError>)
    ensures
        r matches Ok(id) ==> article_id_of(url@) == Some(id@),
        r is Err ==> article_id_of(url@) is None,
        r matches Err(e) ==> (e matches SingleArticleWorkflowError::InvalidArticleUrl(v) && v@
            == url@.serialization),
{
    match article_identity(url) {
        Some(identity) => {
            let mut out = chars_of("single-");
            crate::text::push_all(&mut out, &chars_of(safe_article_id_segment(identity.as_str()).as_str()));
            Ok(string_of(out.as_slice()))
        },
        None => Err(SingleArticleWorkflowError::InvalidArticleUrl(url.serialization.clone())),
    }
}

/// `s` with every leading repetition of `prefix` removed (`str::trim_start_matches`).
pub open spec fn trim_start_matches(s: Seq<char>, prefix: Seq<char>) -> Seq<char>
    decreases s.len(),
{
    if prefix.len() > 0 && starts_with(s, prefix) {
        trim_start_matches(s.skip(prefix.len() as int), prefix)
    } else {
        s
    }
}

/// The title a single article is saved under: the requested title, trimmed, if it holds
/// anything; else the archived title; else `Single Article <id without single->`.
pub open spec fn single_article_title(
    requested: Option<Seq<char>>,
    existing: Option<Seq<char>>,
    article_id: Seq<char>,
) -> Seq<char> {
    let requested_title = match requested {
        Some(t) => if trim(t).len() > 0 {
            Some(trim(t))
        } else {
            None
        },
        None => None,
    };
    match requested_title {
        Some(t) => t,
        None => match existing {
            Some(t) => t,
            None => "Single Article "@ + trim_start_matches(article_id, "single-"@),
        },
    }
}

/// The record that saving a single article writes: the single-article account, the title
/// chosen as above, the normalised URL, and the file references of the archived article.
pub fn single_article_input(
    article_id: &str,
    normalized_url: &ParsedUrl,
    requested_title: &Option<String>,
    existing: &Option<ArchiveArticle>,
) -> (r: ArchiveArticleInput)
    ensures
        r.article_id@ == article_id@,
        r.target_account_id@ == SINGLE_ARTICLE_TARGET_ACCOUNT_ID@,
        r.title@ == single_article_title(
            match requested_title {
                Some(t) => Some(t@),
                None => None,
            },
            match existing {
                Some(a) => Some(a.title@),
                None => None,
            },
            article_id@,
        ),
        r.source_url@ == normalized_url@.serialization,
        r.html_file == (match existing {
            Some(a) => a.html_file,
            None => None,
        }),
        r.markdown_file == (match existing {
            Some(a) => a.markdown_file,
            None => None,
        }),
{
    let requested = match requested_title {
        Some(t) => {
            let trimmed = crate::text::trim_chars(&chars_of(t.as_str()));
            if trimmed.len() > 0 {
                Some(string_of(trimmed.as_slice()))
            } else {
                None
            }
        },
        None => None,
    };
    let title = match requested {
        Some(t) => t,
        None => match existing {
            Some(a) => a.title.clone(),
            None => {
                let id = chars_of(article_id);
                let prefix = chars_of("single-");
                let mut start: usize = 0;
                assert(id@.skip(0) =~= id@);
                while crate::text::matches_at_exec(&id, start, &prefix)
                    invariant
                        start <= id@.len(),
                        prefix@ == "single-"@,
                        trim_start_matches(id@, prefix@) == trim_start_matches(
                            id@.skip(start as int),
                            prefix@,
                        ),
                    decreases id.len() - start,
                {
                    proof {
                        reveal_strlit("single-");
                        let rest = id@.skip(start as int);
                        assert(rest.subrange(0, prefix@.len() as int) =~= id@.subrange(
                            start as int,
                            start + prefix@.len(),
                        ));
                        assert(rest.skip(prefix@.len() as int) =~= id@.skip(start + prefix@.len()));
                    }
                    start = start + prefix.len();
                }
                proof {
                    reveal_strlit("single-");
                    let rest = id@.skip(start as int);
                    assert(rest.len() >= prefix@.len() ==> rest.subrange(0, prefix@.len() as int)
                        =~= id@.subrange(start as int, start + prefix@.len()));
                }
                let mut out = chars_of("Single Article ");
                crate::text::push_all(&mut out, &crate::text::slice_chars(&id, start, id.len()));
                proof {
                    assert(id@.subrange(start as int, id@.len() as int) =~= id@.skip(start as int));
                }
                string_of(out.as_slice())
            },
        },
    };
    ArchiveArticleInput {
        article_id: String::from_str(article_id),
        target_account_id: String::from_str(SINGLE_ARTICLE_TARGET_ACCOUNT_ID),
        title,
        source_url: normalized_url.serialization.clone(),
        html_file: match existing {
            Some(a) => a.html_file.clone(),
            None => None,
        },
        markdown_file: match existing {
            Some(a) => a.markdown_file.clone(),
            None => None,
        },
    }
}

/// Saves single articles by URL.
pub struct SingleArticleWorkflowService;

impl SingleArticleWorkflowService {
    pub fn new() -> (r: Self) {
        SingleArticleWorkflowService
    }
}

} // verus!
