//! Article reading data (reads, likes, shares, comments) fetched with a reading credential:
//! when the credential counts as valid, and how the values are read out of an article page.
use vstd::prelude::*;

use crate::archive_store::{ArchiveArticle, ArchiveArticleInput, ArchiveStoreError, TargetArticleInput};
use crate::json_text::{json_string, push_json_string};
use crate::numbers::{parse_u32, signed_decimal};
use crate::secret_store::{SecretBackend, SecretSlot, SecretStore, SecretStoreError};
use crate::text::{char_utf8_len, chars_of, find_from, is_ascii_digit, string_of};

verus! {

/// The whole seconds since the Unix epoch by the system clock (0 before the epoch). Nothing
/// is stated of the value: it is the time.
#[verifier::external_body]
fn clock_unix_seconds() -> u64 {
    std::time::SystemTime::now().duration_since(std::time::UNIX_EPOCH).unwrap_or_default().as_secs()
}

/// A count of seconds as an `i64`: the count where it fits, otherwise wrapped into the
/// negative range as a two's-complement cast wraps it.
pub open spec fn seconds_as_i64(seconds: u64) -> int {
    if seconds <= i64::MAX {
        seconds as int
    } else {
        seconds - 0x1_0000_0000_0000_0000
    }
}

/// The seconds since the Unix epoch by the system clock (0 before the epoch), as an `i64`:
/// the clock's count where it fits, which it does for any clock reading before the year
/// 292 billion (so the result is then never negative); past that, the count wrapped into
/// the negative range as a two's-complement cast wraps it.
pub fn current_unix_seconds() -> (r: i64)
    ensures
        exists|seconds: u64| r == #[trigger] seconds_as_i64(seconds),
{
    let seconds = clock_unix_seconds();
    if seconds <= 0x7fff_ffff_ffff_ffffu64 {
        let r = seconds as i64;
        assert(r == seconds_as_i64(seconds));
        r
    } else {
        let high = seconds - 0x8000_0000_0000_0000u64;
        let r = (high as i64) + i64::MIN;
        assert(r == seconds_as_i64(seconds));
        r
    }
}

#[derive(Debug, Clone, Eq, PartialEq)]
pub enum ArticleReadingEnrichmentError {
    ArchiveStore(ArchiveStoreError),
    MissingValidReadingCredential,
    SecretStore(SecretStoreError),
    Serialization(String),
    Transport(String),
}

impl ArticleReadingEnrichmentError {
    /// The message shown for the error.
    pub fn message(&self) -> (r: String)
        ensures
            self is MissingValidReadingCredential ==> r@
                == "a valid Article Reading Credential is required for reading enrichment"@,
            self matches ArticleReadingEnrichmentError::Serialization(e) ==> r@
                == "article reading credential parse failed: "@ + e@,
            self matches ArticleReadingEnrichmentError::Transport(e) ==> r@
                == "article reading enrichment failed: "@ + e@,
    {
        let (prefix, detail) = match self {
            ArticleReadingEnrichmentError::ArchiveStore(e) => {
                return e.message();
            },
            ArticleReadingEnrichmentError::MissingValidReadingCredential => {
                return String::from_str(
                    "a valid Article Reading Credential is required for reading enrichment",
                );
            },
            ArticleReadingEnrichmentError::SecretStore(e) => {
                return e.message();
            },
            ArticleReadingEnrichmentError::Serialization(e) => (
                "article reading credential parse failed: ",
                e.as_str(),
            ),
            ArticleReadingEnrichmentError::Transport(e) => (
                "article reading enrichment failed: ",
                e.as_str(),
            ),
        };
        let mut out = chars_of(prefix);
        crate::text::push_all(&mut out, &chars_of(detail));
        string_of(out.as_slice())
    }
}

#[derive(Clone, Debug, Eq, PartialEq)]
pub struct ArticleReadingCredential {
    pub biz: String,
    pub uin: String,
    pub key: String,
    pub pass_ticket: String,
    pub appmsg_token: String,
    pub cookie: Option<String>,
    pub expires_at_unix: i64,
}

/// The credential as the JSON text that the secret store keeps.
pub open spec fn credential_json(c: ArticleReadingCredential) -> Seq<char> {
    "{\"biz\":"@ + json_string(c.biz@) + ",\"uin\":"@ + json_string(c.uin@) + ",\"key\":"@
        + json_string(c.key@) + ",\"passTicket\":"@ + json_string(c.pass_ticket@)
        + ",\"appmsgToken\":"@ + json_string(c.appmsg_token@) + ",\"cookie\":"@ + match c.cookie {
        Some(v) => json_string(v@),
        None => "null"@,
    } + ",\"expiresAtUnix\":"@ + signed_decimal(c.expires_at_unix as int) + "}"@
}

impl ArticleReadingCredential {
    /// The credential as JSON.
    pub fn to_json(&self) -> (r: String)
        ensures
            r@ == credential_json(*self),
    {
        let mut out = chars_of("{\"biz\":");
        push_json_string(&mut out, self.biz.as_str());
        crate::text::push_all(&mut out, &chars_of(",\"uin\":"));
        push_json_string(&mut out, self.uin.as_str());
        crate::text::push_all(&mut out, &chars_of(",\"key\":"));
        push_json_string(&mut out, self.key.as_str());
        crate::text::push_all(&mut out, &chars_of(",\"passTicket\":"));
        push_json_string(&mut out, self.pass_ticket.as_str());
        crate::text::push_all(&mut out, &chars_of(",\"appmsgToken\":"));
        push_json_string(&mut out, self.appmsg_token.as_str());
        crate::text::push_all(&mut out, &chars_of(",\"cookie\":"));
        match &self.cookie {
            Some(v) => push_json_string(&mut out, v.as_str()),
            None => crate::text::push_all(&mut out, &chars_of("null")),
        }
        crate::text::push_all(&mut out, &chars_of(",\"expiresAtUnix\":"));
        crate::text::push_all(&mut out, &crate::numbers::i64_to_decimal(self.expires_at_unix));
        crate::text::push_all(&mut out, &chars_of("}"));
        string_of(out.as_slice())
    }
}

#[derive(Clone, Debug, Eq, PartialEq)]
pub struct ArticleReadingCredentialStatus {
    pub configured: bool,
    pub valid: bool,
    pub expired: bool,
    pub expires_at_unix: Option<i64>,
}

/// The status of a stored credential at `now_unix`: a credential expires at its expiry
/// second; none stored is neither valid nor expired.
pub open spec fn credential_status(expires_at: Option<i64>, now_unix: i64) -> (bool, bool, bool, Option<i64>) {
    match expires_at {
        Some(e) => (true, !(e <= now_unix), e <= now_unix, Some(e)),
        None => (false, false, false, None),
    }
}

/// A status as plain values.
pub open spec fn status_view(s: ArticleReadingCredentialStatus) -> (bool, bool, bool, Option<i64>) {
    (s.configured, s.valid, s.expired, s.expires_at_unix)
}

/// The expiry of an optional credential.
pub open spec fn expiry_of(c: Option<ArticleReadingCredential>) -> Option<i64> {
    match c {
        Some(c) => Some(c.expires_at_unix),
        None => None,
    }
}

/// The status of an optional credential at `now_unix`.
pub fn status_for(credential: Option<&ArticleReadingCredential>, now_unix: i64) -> (r:
    ArticleReadingCredentialStatus)
    ensures
        status_view(r) == credential_status(
            match credential {
                Some(c) => Some(c.expires_at_unix),
                None => None,
            },
            now_unix,
        ),
{
    match credential {
        Some(c) => {
            let expired = c.expires_at_unix <= now_unix;
            ArticleReadingCredentialStatus {
                configured: true,
                valid: !expired,
                expired,
                expires_at_unix: Some(c.expires_at_unix),
            }
        },
        None => ArticleReadingCredentialStatus {
            configured: false,
            valid: false,
            expired: false,
            expires_at_unix: None,
        },
    }
}

/// Keeps the article reading credential and reports its status at a fixed time.
pub struct ArticleReadingCredentialService<B> {
    secret_store: SecretStore<B>,
    now_unix: i64,
}

impl<B: SecretBackend> ArticleReadingCredentialService<B> {
    pub closed spec fn secrets(&self) -> Map<SecretSlot, Seq<char>> {
        self.secret_store.stored()
    }

    pub closed spec fn now(&self) -> i64 {
        self.now_unix
    }

    pub fn new(secret_store: SecretStore<B>, now_unix: i64) -> (r: Self)
        ensures
            r.secrets() == secret_store.stored(),
            r.now() == now_unix,
    {
        ArticleReadingCredentialService { secret_store, now_unix }
    }

    /// The time the service judges and expires credentials at.
    pub fn now_unix(&self) -> (r: i64)
        ensures
            r == self.now(),
    {
        self.now_unix
    }

    /// The secret store the service writes to.
    pub fn secret_store(&self) -> (r: &SecretStore<B>)
        ensures
            r.stored() == self.secrets(),
    {
        &self.secret_store
    }

    /// The status of an optional credential at the service's time.
    pub fn status_for_credential(&self, credential: Option<&ArticleReadingCredential>) -> (r:
        ArticleReadingCredentialStatus)
        ensures
            status_view(r) == credential_status(
                match credential {
                    Some(c) => Some(c.expires_at_unix),
                    None => None,
                },
                self.now(),
            ),
    {
        status_for(credential, self.now_unix)
    }

    /// The stored credential text, if any.
    pub fn credential_text(&self) -> (r: Result<Option<String>, ArticleReadingEnrichmentError>)
        ensures
            B::obeys_store_laws() ==> (r matches Ok(v) ==> (v is Some <==> self.secrets().contains_key(
                SecretSlot::ArticleReadingCredential,
            ))),
            B::obeys_store_laws() ==> (r matches Ok(Some(v)) ==> v@ == self.secrets()[SecretSlot::ArticleReadingCredential]),
            r matches Err(e) ==> e is SecretStore,
            B::always_succeeds() ==> r is Ok,
    {
        match self.secret_store.read(SecretSlot::ArticleReadingCredential) {
            Ok(v) => Ok(v),
            Err(e) => Err(ArticleReadingEnrichmentError::SecretStore(e)),
        }
    }

    /// The stored credential text that marking the credential expired starts from, or
    /// `MissingValidReadingCredential` when none is stored.
    pub fn credential_text_to_expire(&self) -> (r: Result<String, ArticleReadingEnrichmentError>)
        ensures
            B::obeys_store_laws() ==> (r matches Ok(v) ==> self.secrets().contains_key(
                SecretSlot::ArticleReadingCredential,
            ) && v@ == self.secrets()[SecretSlot::ArticleReadingCredential]),
            B::obeys_store_laws() ==> (r matches Err(
                ArticleReadingEnrichmentError::MissingValidReadingCredential,
            ) ==> !self.secrets().contains_key(SecretSlot::ArticleReadingCredential)),
            B::obeys_store_laws() && B::always_succeeds() ==> (!self.secrets().contains_key(
                SecretSlot::ArticleReadingCredential,
            ) ==> r == Err::<String, ArticleReadingEnrichmentError>(
                ArticleReadingEnrichmentError::MissingValidReadingCredential,
            )),
            r matches Err(e) ==> (e is SecretStore || e is MissingValidReadingCredential),
            r matches Err(ArticleReadingEnrichmentError::SecretStore(_)) ==> !B::always_succeeds(),
    {
        match self.secret_store.read(SecretSlot::ArticleReadingCredential) {
            Ok(Some(t)) => Ok(t),
            Ok(None) => Err(ArticleReadingEnrichmentError::MissingValidReadingCredential),
            Err(e) => Err(ArticleReadingEnrichmentError::SecretStore(e)),
        }
    }

    /// Keeps `credential` and reports its status.
    pub fn save(&mut self, credential: ArticleReadingCredential) -> (r: Result<
        ArticleReadingCredentialStatus,
        ArticleReadingEnrichmentError,
    >)
        ensures
            final(self).now() == old(self).now(),
            r matches Ok(s) ==> status_view(s) == credential_status(
                Some(credential.expires_at_unix),
                old(self).now(),
            ),
            B::obeys_store_laws() ==> (r is Ok ==> final(self).secrets() == old(self).secrets().insert(
                SecretSlot::ArticleReadingCredential,
                credential_json(credential),
            )),
            r matches Err(e) ==> e is SecretStore,
            B::obeys_store_laws() ==> (r is Err ==> final(self).secrets() == old(self).secrets()),
            B::always_succeeds() ==> r is Ok,
    {
        let payload = credential.to_json();
        match self.secret_store.save(SecretSlot::ArticleReadingCredential, payload.as_str()) {
            Ok(()) => Ok(status_for(Some(&credential), self.now_unix)),
            Err(e) => Err(ArticleReadingEnrichmentError::SecretStore(e)),
        }
    }

    /// Keeps `credential` as expired one second before the service's time.
    pub fn mark_expired(&mut self, credential: ArticleReadingCredential) -> (r: Result<
        ArticleReadingCredentialStatus,
        ArticleReadingEnrichmentError,
    >)
        requires
            old(self).now() > i64::MIN,
        ensures
            final(self).now() == old(self).now(),
            r matches Ok(s) ==> s.expired && !s.valid && s.configured,
            B::obeys_store_laws() ==> (r is Ok ==> final(self).secrets() == old(self).secrets().insert(
                SecretSlot::ArticleReadingCredential,
                credential_json(ArticleReadingCredential { expires_at_unix: (old(self).now() - 1) as i64, ..credential }),
            )),
            r matches Err(e) ==> e is SecretStore,
            B::obeys_store_laws() ==> (r is Err ==> final(self).secrets() == old(self).secrets()),
            B::always_succeeds() ==> r is Ok,
    {
        let mut c = credential;
        c.expires_at_unix = self.now_unix - 1;
        self.save(c)
    }

    /// Forgets the credential.
    pub fn delete(&mut self) -> (r: Result<ArticleReadingCredentialStatus, ArticleReadingEnrichmentError>)
        ensures
            final(self).now() == old(self).now(),
            r matches Ok(s) ==> status_view(s) == credential_status(None, old(self).now()),
            B::obeys_store_laws() ==> (r is Ok ==> final(self).secrets() == old(self).secrets().remove(
                SecretSlot::ArticleReadingCredential,
            )),
            r matches Err(e) ==> e is SecretStore,
            B::obeys_store_laws() ==> (r is Err ==> final(self).secrets() == old(self).secrets()),
            B::always_succeeds() ==> r is Ok,
    {
        match self.secret_store.delete(SecretSlot::ArticleReadingCredential) {
            Ok(()) => Ok(status_for(None, self.now_unix)),
            Err(e) => Err(ArticleReadingEnrichmentError::SecretStore(e)),
        }
    }
}

/// A credential that is present and not expired at `now_unix`, or the error.
pub fn valid_credential_at(credential: Option<ArticleReadingCredential>, now_unix: i64) -> (r: Result<
    ArticleReadingCredential,
    ArticleReadingEnrichmentError,
>)
    ensures
        (credential matches Some(c) && c.expires_at_unix > now_unix) ==> r == Ok::<
            ArticleReadingCredential,
            ArticleReadingEnrichmentError,
        >(credential->0),
        !(credential matches Some(c) && c.expires_at_unix > now_unix) ==> r == Err::<
            ArticleReadingCredential,
            ArticleReadingEnrichmentError,
        >(ArticleReadingEnrichmentError::MissingValidReadingCredential),
{
    match credential {
        Some(c) => if c.expires_at_unix <= now_unix {
            Err(ArticleReadingEnrichmentError::MissingValidReadingCredential)
        } else {
            Ok(c)
        },
        None => Err(ArticleReadingEnrichmentError::MissingValidReadingCredential),
    }
}

/// The text between `marker` (its first occurrence) and the next `'`.
pub open spec fn quoted_after(source: Seq<char>, marker: Seq<char>) -> Option<Seq<char>> {
    match find_from(source, marker, 0) {
        None => None,
        Some(p) => match find_from(source, seq!['\''], p + marker.len()) {
            None => None,
            Some(e) => Some(source.subrange(p + marker.len(), e)),
        },
    }
}

/// The text that follows `marker` up to the next `'`.
pub fn extract_quoted_after(source: &str, marker: &str) -> (r: Option<String>)
    ensures
        r matches Some(v) ==> quoted_after(source@, marker@) == Some(v@),
        r is None ==> quoted_after(source@, marker@) is None,
{
    let s = chars_of(source);
    let m = chars_of(marker);
    let s_len = s.len();
    let p = match crate::text::find_chars(&s, &m, 0) {
        Some(p) => p,
        None => {
            return None;
        },
    };
    proof {
        crate::text::lemma_find_from(s@, m@, 0);
    }
    let start = p + m.len();
    match crate::text::find_char(&s, '\'', start) {
        Some(e) => {
            proof {
                crate::text::lemma_find_from(s@, seq!['\''], start as int);
            }
            Some(string_of(crate::text::slice_chars(&s, start, e).as_slice()))
        },
        None => None,
    }
}

/// The comment id a page declares, in the first of its three known spellings.
pub open spec fn comment_id_of(html: Seq<char>) -> Option<Seq<char>> {
    match quoted_after(html, "var comment_id = '"@) {
        Some(v) => Some(v),
        None => match quoted_after(html, "comment_id: JsDecode('"@) {
            Some(v) => Some(v),
            None => quoted_after(html, "window.comment_id = '"@),
        },
    }
}

/// The comment id of an article page.
pub fn extract_comment_id(html: &str) -> (r: Option<String>)
    ensures
        r matches Some(v) ==> comment_id_of(html@) == Some(v@),
        r is None ==> comment_id_of(html@) is None,
{
    match extract_quoted_after(html, "var comment_id = '") {
        Some(v) => Some(v),
        None => match extract_quoted_after(html, "comment_id: JsDecode('") {
            Some(v) => Some(v),
            None => extract_quoted_after(html, "window.comment_id = '"),
        },
    }
}

/// Walking from `e` with `budget` bytes left: where the window ends and how many bytes are
/// left there.
pub open spec fn window_walk(s: Seq<char>, e: int, budget: int) -> (int, int)
    decreases s.len() - e,
{
    if e < 0 || e >= s.len() || char_utf8_len(s[e]) > budget {
        (e, budget)
    } else {
        window_walk(s, e + 1, budget - char_utf8_len(s[e]))
    }
}

/// The 80-byte window after `start` ends inside a character, which the byte slicing of the
/// window does not allow.
pub open spec fn window_splits_char(s: Seq<char>, start: int) -> bool {
    let (e, left) = window_walk(s, start, 80);
    e < s.len() && left > 0
}

/// The index of the first ASCII digit at or after `i` and before `end`.
pub open spec fn first_digit(s: Seq<char>, i: int, end: int) -> Option<int>
    decreases end - i,
{
    if i >= end || i < 0 || i >= s.len() {
        None
    } else if is_ascii_digit(s[i]) {
        Some(i)
    } else {
        first_digit(s, i + 1, end)
    }
}

/// The index after the run of ASCII digits that starts at `i` (and ends by `end`).
pub open spec fn digits_end(s: Seq<char>, i: int, end: int) -> int
    decreases end - i,
{
    if i >= end || i < 0 || i >= s.len() || !is_ascii_digit(s[i]) {
        i
    } else {
        digits_end(s, i + 1, end)
    }
}

/// The number that follows `key`: the first run of digits within 80 bytes after the key's
/// first occurrence, where it fits in `u32`.
pub open spec fn u32_after(source: Seq<char>, key: Seq<char>) -> Option<u32> {
    match find_from(source, key, 0) {
        None => None,
        Some(p) => {
            let start = p + key.len();
            let end = window_walk(source, start, 80).0;
            match first_digit(source, start, end) {
                None => None,
                Some(d) => parse_u32(source.subrange(d, digits_end(source, d, end))),
            }
        },
    }
}

/// The byte window after the first occurrence of `key` splits a character.
pub open spec fn key_window_splits(source: Seq<char>, key: Seq<char>) -> bool {
    match find_from(source, key, 0) {
        None => false,
        Some(p) => window_splits_char(source, p + key.len()),
    }
}

proof fn lemma_window_walk_bounds(s: Seq<char>, e: int, budget: int)
    requires
        0 <= e <= s.len(),
        budget >= 0,
    ensures
        e <= window_walk(s, e, budget).0 <= s.len(),
        window_walk(s, e, budget).1 >= 0,
    decreases s.len() - e,
{
    if e < s.len() && char_utf8_len(s[e]) <= budget {
        lemma_window_walk_bounds(s, e + 1, budget - char_utf8_len(s[e]));
    }
}

fn utf8_width(c: char) -> (r: u32)
    ensures
        r == char_utf8_len(c),
{
    if (c as u32) < 0x80 {
        1
    } else if (c as u32) < 0x800 {
        2
    } else if (c as u32) < 0x10000 {
        3
    } else {
        4
    }
}

fn window_end(s: &Vec<char>, start: usize) -> (r: (usize, u32))
    requires
        start <= s@.len(),
    ensures
        r.0 as int == window_walk(s@, start as int, 80).0,
        r.1 as int == window_walk(s@, start as int, 80).1,
        start <= r.0 <= s@.len(),
{
    let mut e = start;
    let mut left: u32 = 80;
    while e < s.len() && utf8_width(s[e]) <= left
        invariant
            start <= e <= s@.len(),
            left <= 80,
            window_walk(s@, start as int, 80) == window_walk(s@, e as int, left as int),
        decreases s.len() - e,
    {
        left = left - utf8_width(s[e]);
        e = e + 1;
    }
    (e, left)
}

/// Whether the byte window after `key` would split a character (where reading the number
/// after `key` is not possible).
pub fn key_window_splits_char(source: &str, key: &str) -> (r: bool)
    ensures
        r == key_window_splits(source@, key@),
{
    let s = chars_of(source);
    let k = chars_of(key);
    let s_len = s.len();
    match crate::text::find_chars(&s, &k, 0) {
        None => false,
        Some(p) => {
            proof {
                crate::text::lemma_find_from(s@, k@, 0);
            }
            let (e, left) = window_end(&s, p + k.len());
            e < s.len() && left > 0
        },
    }
}

/// The number after `key` in `source`.
pub fn extract_u32_after(source: &str, key: &str) -> (r: Option<u32>)
    requires
        !key_window_splits(source@, key@),
    ensures
        r == u32_after(source@, key@),
{
    let s = chars_of(source);
    let k = chars_of(key);
    let s_len = s.len();
    let p = match crate::text::find_chars(&s, &k, 0) {
        Some(p) => p,
        None => {
            return None;
        },
    };
    proof {
        crate::text::lemma_find_from(s@, k@, 0);
    }
    let start = p + k.len();
    let (end, _left) = window_end(&s, start);
    let mut d = start;
    while d < end && !(s[d] >= '0' && s[d] <= '9')
        invariant
            start <= d <= end,
            end <= s@.len(),
            first_digit(s@, start as int, end as int) == first_digit(s@, d as int, end as int),
        decreases end - d,
    {
        d = d + 1;
    }
    if d >= end {
        return None;
    }
    let mut f = d;
    while f < end && s[f] >= '0' && s[f] <= '9'
        invariant
            d <= f <= end,
            end <= s@.len(),
            digits_end(s@, d as int, end as int) == digits_end(s@, f as int, end as int),
        decreases end - f,
    {
        f = f + 1;
    }
    crate::numbers::parse_u32_exec(&crate::text::slice_chars(&s, d, f))
}

/// The number after the first of `keys` that has one.
pub open spec fn u32_after_any(source: Seq<char>, keys: Seq<Seq<char>>) -> Option<u32>
    decreases keys.len(),
{
    if keys.len() == 0 {
        None
    } else {
        match u32_after(source, keys[0]) {
            Some(n) => Some(n),
            None => u32_after_any(source, keys.drop_first()),
        }
    }
}

/// Reading `keys` in turn until one gives a number reaches a key whose 80-byte window ends
/// inside a character.
pub open spec fn any_key_window_splits(source: Seq<char>, keys: Seq<Seq<char>>) -> bool
    decreases keys.len(),
{
    if keys.len() == 0 {
        false
    } else if key_window_splits(source, keys[0]) {
        true
    } else if u32_after(source, keys[0]) is Some {
        false
    } else {
        any_key_window_splits(source, keys.drop_first())
    }
}

/// Whether reading `keys` in turn reaches a key whose window ends inside a character.
pub fn reached_key_window_splits(source: &str, keys: &Vec<&str>) -> (r: bool)
    ensures
        r == any_key_window_splits(source@, keys@.map_values(|k: &str| k@)),
{
    let ghost all = keys@.map_values(|k: &str| k@);
    let mut i: usize = 0;
    assert(all.subrange(0, all.len() as int) =~= all);
    while i < keys.len()
        invariant
            i <= keys@.len(),
            all == keys@.map_values(|k: &str| k@),
            any_key_window_splits(source@, all) == any_key_window_splits(
                source@,
                all.subrange(i as int, all.len() as int),
            ),
        decreases keys.len() - i,
    {
        let ghost rest = all.subrange(i as int, all.len() as int);
        assert(rest[0] == keys@[i as int]@);
        assert(rest.drop_first() =~= all.subrange(i + 1, all.len() as int));
        if key_window_splits_char(source, keys[i]) {
            return true;
        }
        if extract_u32_after(source, keys[i]).is_some() {
            return false;
        }
        i = i + 1;
    }
    false
}

/// The number after the first of `keys` that has one.
pub fn extract_u32_after_any(source: &str, keys: &Vec<&str>) -> (r: Option<u32>)
    requires
        !any_key_window_splits(source@, keys@.map_values(|k: &str| k@)),
    ensures
        r == u32_after_any(source@, keys@.map_values(|k: &str| k@)),
{
    let ghost all = keys@.map_values(|k: &str| k@);
    let mut i: usize = 0;
    assert(all.subrange(0, all.len() as int) =~= all);
    while i < keys.len()
        invariant
            i <= keys@.len(),
            all == keys@.map_values(|k: &str| k@),
            !any_key_window_splits(source@, all.subrange(i as int, all.len() as int)),
            u32_after_any(source@, all) == u32_after_any(
                source@,
                all.subrange(i as int, all.len() as int),
            ),
        decreases keys.len() - i,
    {
        let ghost rest = all.subrange(i as int, all.len() as int);
        assert(rest[0] == keys@[i as int]@);
        assert(rest.drop_first() =~= all.subrange(i + 1, all.len() as int));
        match extract_u32_after(source, keys[i]) {
            Some(n) => {
                return Some(n);
            },
            None => {},
        }
        i = i + 1;
    }
    None
}

/// A comment of an article as the reading data gives it.
#[derive(Clone, Debug, Eq, PartialEq)]
pub struct ArticleReadingCommentInput {
    pub comment_id: String,
    pub author_name: String,
    pub content: String,
    pub like_count: u32,
    pub created_at_unix: i64,
    pub raw_json: Option<String>,
}

/// A field of the platform's comment list as it is read: text, a number (its JSON text, and
/// its value where it is an integer that fits a `u64` or an `i64`), or any other JSON value.
#[derive(Clone, Debug, Eq, PartialEq)]
pub enum JsonScalar {
    Text(String),
    Number { text: String, unsigned: Option<u64>, signed: Option<i64> },
    Other,
}

/// A field read as text: text as it is, a number as its JSON text.
pub open spec fn scalar_text(v: JsonScalar) -> Option<Seq<char>> {
    match v {
        JsonScalar::Text(s) => Some(s@),
        JsonScalar::Number { text, .. } => Some(text@),
        JsonScalar::Other => None,
    }
}

/// A field read as a `u32`: a number that is a non-negative integer in range, or text that
/// parses as one.
pub open spec fn scalar_u32(v: JsonScalar) -> Option<u32> {
    match v {
        JsonScalar::Text(s) => parse_u32(s@),
        JsonScalar::Number { unsigned, .. } => match unsigned {
            Some(n) => if n <= u32::MAX {
                Some(n as u32)
            } else {
                None
            },
            None => None,
        },
        JsonScalar::Other => None,
    }
}

/// A field read as an `i64`: a number that is an integer in range, or text that parses as
/// one.
pub open spec fn scalar_i64(v: JsonScalar) -> Option<i64> {
    match v {
        JsonScalar::Text(s) => crate::numbers::parse_i64(s@),
        JsonScalar::Number { signed, .. } => signed,
        JsonScalar::Other => None,
    }
}

/// A field read as text.
pub fn json_scalar_text(v: &JsonScalar) -> (r: Option<String>)
    ensures
        r matches Some(t) ==> scalar_text(*v) == Some(t@),
        r is None ==> scalar_text(*v) is None,
{
    match v {
        JsonScalar::Text(s) => Some(s.clone()),
        JsonScalar::Number { text, .. } => Some(text.clone()),
        JsonScalar::Other => None,
    }
}

/// A field read as a `u32`.
pub fn json_scalar_u32(v: &JsonScalar) -> (r: Option<u32>)
    ensures
        r == scalar_u32(*v),
{
    match v {
        JsonScalar::Text(s) => crate::numbers::parse_u32_exec(&chars_of(s.as_str())),
        JsonScalar::Number { unsigned, .. } => match unsigned {
            Some(n) => if *n <= 4294967295u64 {
                Some(*n as u32)
            } else {
                None
            },
            None => None,
        },
        JsonScalar::Other => None,
    }
}

/// A field read as an `i64`.
pub fn json_scalar_i64(v: &JsonScalar) -> (r: Option<i64>)
    ensures
        r == scalar_i64(*v),
{
    match v {
        JsonScalar::Text(s) => crate::numbers::parse_i64_exec(&chars_of(s.as_str())),
        JsonScalar::Number { signed, .. } => *signed,
        JsonScalar::Other => None,
    }
}

/// The fields of one entry of the platform's comment list, each where the entry has it, and
/// the entry's JSON text.
#[derive(Clone, Debug, Eq, PartialEq)]
pub struct CommentFields {
    pub content_id: Option<JsonScalar>,
    pub id: Option<JsonScalar>,
    pub nick_name: Option<JsonScalar>,
    pub content: Option<JsonScalar>,
    pub like_num: Option<JsonScalar>,
    pub create_time: Option<JsonScalar>,
    pub raw_json: Option<String>,
}

/// The text of an optional field, empty where it is missing or not text.
pub open spec fn text_or_empty(v: Option<JsonScalar>) -> Seq<char> {
    match v {
        Some(s) => match scalar_text(s) {
            Some(t) => t,
            None => Seq::empty(),
        },
        None => Seq::empty(),
    }
}

/// A comment from the fields of a comment list entry. Its id is `content_id` where the entry
/// has that field, `id` otherwise, and must read as text; there is no comment without one.
/// Missing names and contents are empty, missing counts and times zero.
pub fn comment_from_fields(fields: &CommentFields) -> (r: Option<ArticleReadingCommentInput>)
    ensures
        ({
            let key = if fields.content_id is Some {
                fields.content_id
            } else {
                fields.id
            };
            &&& (r is Some <==> (key matches Some(k) && scalar_text(k) is Some))
            &&& r matches Some(c) ==> {
                &&& key matches Some(k) && scalar_text(k) == Some(c.comment_id@)
                &&& c.author_name@ == text_or_empty(fields.nick_name)
                &&& c.content@ == text_or_empty(fields.content)
                &&& c.like_count == match fields.like_num {
                    Some(v) => match scalar_u32(v) {
                        Some(n) => n,
                        None => 0,
                    },
                    None => 0,
                }
                &&& c.created_at_unix == match fields.create_time {
                    Some(v) => match scalar_i64(v) {
                        Some(n) => n,
                        None => 0,
                    },
                    None => 0,
                }
                &&& c.raw_json == fields.raw_json
            }
        }),
{
    let key = match &fields.content_id {
        Some(v) => v,
        None => match &fields.id {
            Some(v) => v,
            None => {
                return None;
            },
        },
    };
    let comment_id = match json_scalar_text(key) {
        Some(t) => t,
        None => {
            return None;
        },
    };
    let author_name = match &fields.nick_name {
        Some(v) => match json_scalar_text(v) {
            Some(t) => t,
            None => String::new(),
        },
        None => String::new(),
    };
    let content = match &fields.content {
        Some(v) => match json_scalar_text(v) {
            Some(t) => t,
            None => String::new(),
        },
        None => String::new(),
    };
    let like_count = match &fields.like_num {
        Some(v) => match json_scalar_u32(v) {
            Some(n) => n,
            None => 0,
        },
        None => 0,
    };
    let created_at_unix = match &fields.create_time {
        Some(v) => match json_scalar_i64(v) {
            Some(n) => n,
            None => 0,
        },
        None => 0,
    };
    Some(
        ArticleReadingCommentInput {
            comment_id,
            author_name,
            content,
            like_count,
            created_at_unix,
            raw_json: fields.raw_json.clone(),
        },
    )
}

/// The reading data fetched for one article.
#[derive(Clone, Debug, Eq, PartialEq)]
pub struct ArticleReadingEnrichmentInput {
    pub read_count: Option<u32>,
    pub like_count: Option<u32>,
    pub share_count: Option<u32>,
    pub comment_count: Option<u32>,
    pub paid_content: Option<String>,
    pub comments: Vec<ArticleReadingCommentInput>,
}

/// The reading data kept for an article, with the time it was fetched.
#[derive(Clone, Debug, Eq, PartialEq)]
pub struct ArticleReadingEnrichment {
    pub article_id: String,
    pub read_count: Option<u32>,
    pub like_count: Option<u32>,
    pub share_count: Option<u32>,
    pub comment_count: Option<u32>,
    pub paid_content: Option<String>,
    pub comments: Vec<ArticleReadingCommentInput>,
    pub enriched_at_unix: i64,
}

#[derive(Clone, Debug, Eq, PartialEq)]
pub struct ArticleReadingEnrichmentRequest {
    pub fakeid: String,
    pub article_ids: Vec<String>,
}

#[derive(Clone, Debug, Eq, PartialEq)]
pub struct ArticleReadingEnrichmentFetchRequest {
    pub credential: ArticleReadingCredential,
    pub article_id: String,
    pub source_url: String,
    pub appmsgid: i64,
    pub itemidx: i64,
}

#[derive(Clone, Debug, Eq, PartialEq)]
pub struct ArticleReadingEnrichmentFetchResponse {
    pub read_count: Option<u32>,
    pub like_count: Option<u32>,
    pub share_count: Option<u32>,
    pub comment_count: Option<u32>,
    pub paid_content: Option<String>,
    pub comments: Vec<ArticleReadingCommentInput>,
}

/// The keys tried, in turn, for the read count of an article page.
pub open spec fn read_count_keys() -> Seq<Seq<char>> {
    seq!["read_num_new"@, "read_num"@]
}

/// The keys tried, in turn, for the like count of an article page.
pub open spec fn like_count_keys() -> Seq<Seq<char>> {
    seq!["old_like_count"@, "like_num"@]
}

/// The keys tried, in turn, for the share count of an article page.
pub open spec fn share_count_keys() -> Seq<Seq<char>> {
    seq!["share_count"@, "share_num"@]
}

/// The keys tried, in turn, for the comment count of an article page.
pub open spec fn comment_count_keys() -> Seq<Seq<char>> {
    seq!["comment_count"@, "comment_num"@]
}

/// Reading the counts of page `html` reaches a key whose window ends inside a character.
pub open spec fn page_counts_split(html: Seq<char>) -> bool {
    ||| any_key_window_splits(html, read_count_keys())
    ||| any_key_window_splits(html, like_count_keys())
    ||| any_key_window_splits(html, share_count_keys())
    ||| any_key_window_splits(html, comment_count_keys())
}

fn count_keys(first: &'static str, second: &'static str) -> (r: Vec<&'static str>)
    ensures
        r@.map_values(|k: &str| k@) == seq![first@, second@],
{
    let r = vec![first, second];
    assert(r@.map_values(|k: &str| k@) =~= seq![first@, second@]);
    r
}

/// Whether reading the counts of page `html` reaches a key whose window ends inside a
/// character.
pub fn reading_counts_split(html: &str) -> (r: bool)
    ensures
        r == page_counts_split(html@),
{
    reached_key_window_splits(html, &count_keys("read_num_new", "read_num"))
        || reached_key_window_splits(html, &count_keys("old_like_count", "like_num"))
        || reached_key_window_splits(html, &count_keys("share_count", "share_num"))
        || reached_key_window_splits(html, &count_keys("comment_count", "comment_num"))
}

/// The reading data that article page `html` states: each count is the number after the
/// first of its keys that has one; no paid content and no comments yet.
pub fn page_reading_counts(html: &str) -> (r: ArticleReadingEnrichmentFetchResponse)
    requires
        !page_counts_split(html@),
    ensures
        r.read_count == u32_after_any(html@, read_count_keys()),
        r.like_count == u32_after_any(html@, like_count_keys()),
        r.share_count == u32_after_any(html@, share_count_keys()),
        r.comment_count == u32_after_any(html@, comment_count_keys()),
        r.paid_content is None,
        r.comments@.len() == 0,
{
    ArticleReadingEnrichmentFetchResponse {
        read_count: extract_u32_after_any(html, &count_keys("read_num_new", "read_num")),
        like_count: extract_u32_after_any(html, &count_keys("old_like_count", "like_num")),
        share_count: extract_u32_after_any(html, &count_keys("share_count", "share_num")),
        comment_count: extract_u32_after_any(html, &count_keys("comment_count", "comment_num")),
        paid_content: None,
        comments: Vec::new(),
    }
}

/// The reading data of a page completed with its fetched comments: their total stands in
/// for a comment count the page did not state, and the comments are the fetched ones.
pub fn with_fetched_comments(
    response: ArticleReadingEnrichmentFetchResponse,
    comment_total: Option<u32>,
    comments: Vec<ArticleReadingCommentInput>,
) -> (r: ArticleReadingEnrichmentFetchResponse)
    ensures
        r.read_count == response.read_count,
        r.like_count == response.like_count,
        r.share_count == response.share_count,
        r.comment_count == (if response.comment_count is Some {
            response.comment_count
        } else {
            comment_total
        }),
        r.paid_content == response.paid_content,
        r.comments == comments,
{
    let comment_count = match response.comment_count {
        Some(n) => Some(n),
        None => comment_total,
    };
    ArticleReadingEnrichmentFetchResponse {
        read_count: response.read_count,
        like_count: response.like_count,
        share_count: response.share_count,
        comment_count,
        paid_content: response.paid_content,
        comments,
    }
}

/// Fetches the reading data of one article.
pub trait ArticleReadingEnrichmentTransport {
    /// Whether the transport may answer `request` with `answer`. A transport that describes
    /// nothing may answer anything.
    open spec fn reading_answer_allowed(
        &self,
        request: ArticleReadingEnrichmentFetchRequest,
        answer: Result<ArticleReadingEnrichmentFetchResponse, String>,
    ) -> bool {
        true
    }

    fn fetch(&self, request: ArticleReadingEnrichmentFetchRequest) -> (r: Result<
        ArticleReadingEnrichmentFetchResponse,
        String,
    >)
        ensures
            self.reading_answer_allowed(request, r),
    ;
}

#[derive(Clone, Debug, Eq, PartialEq)]
pub struct ArticleReadingEnrichmentArticleOutcome {
    pub article_id: String,
    pub reading_enrichment: ArticleReadingEnrichment,
}

#[derive(Clone, Debug, Eq, PartialEq)]
pub struct ArticleReadingEnrichmentOutcome {
    pub enriched_count: u32,
    pub skipped_count: u32,
    pub articles: Vec<ArticleReadingEnrichmentArticleOutcome>,
}

/// The index of the last of `articles` with id `article_id` (later records of an id replace
/// earlier ones).
pub open spec fn last_with_id(articles: Seq<TargetArticleInput>, article_id: Seq<char>) -> Option<int>
    decreases articles.len(),
{
    if articles.len() == 0 {
        None
    } else if articles.last().article_id@ == article_id {
        Some(articles.len() - 1)
    } else {
        last_with_id(articles.drop_last(), article_id)
    }
}

/// The position of the target article an enrichment request names.
pub fn select_target_article(articles: &Vec<TargetArticleInput>, article_id: &str) -> (r: Option<usize>)
    ensures
        r matches Some(i) ==> last_with_id(articles@, article_id@) == Some(i as int),
        r is None ==> last_with_id(articles@, article_id@) is None,
{
    let mut found: Option<usize> = None;
    let mut k: usize = 0;
    while k < articles.len()
        invariant
            k <= articles@.len(),
            found matches Some(i) ==> last_with_id(articles@.take(k as int), article_id@) == Some(
                i as int,
            ),
            found is None ==> last_with_id(articles@.take(k as int), article_id@) is None,
        decreases articles.len() - k,
    {
        assert(articles@.take(k as int + 1).drop_last() =~= articles@.take(k as int));
        if crate::archive_store::str_eq(articles[k].article_id.as_str(), article_id) {
            found = Some(k);
        }
        k = k + 1;
    }
    assert(articles@.take(articles@.len() as int) =~= articles@);
    found
}

/// The fetch request for a target article, with the credential.
pub fn enrichment_fetch_request(credential: &ArticleReadingCredential, target: &TargetArticleInput) -> (r:
    ArticleReadingEnrichmentFetchRequest)
    ensures
        r.article_id@ == target.article_id@,
        r.source_url@ == target.source_url@,
        r.appmsgid == target.appmsgid,
        r.itemidx == target.itemidx,
{
    ArticleReadingEnrichmentFetchRequest {
        credential: credential.clone(),
        article_id: target.article_id.clone(),
        source_url: target.source_url.clone(),
        appmsgid: target.appmsgid,
        itemidx: target.itemidx,
    }
}

/// The archive record written for an enriched article: the target article's fields with the
/// file references of the archived article, if there is one.
pub fn enriched_article_input(target: &TargetArticleInput, existing: &Option<ArchiveArticle>) -> (r:
    ArchiveArticleInput)
    ensures
        r.article_id@ == target.article_id@,
        r.target_account_id@ == target.target_account_id@,
        r.title@ == target.title@,
        r.source_url@ == target.source_url@,
        r.html_file == (match existing {
            Some(a) => a.html_file,
            None => None,
        }),
        r.markdown_file == (match existing {
            Some(a) => a.markdown_file,
            None => None,
        }),
{
    ArchiveArticleInput {
        article_id: target.article_id.clone(),
        target_account_id: target.target_account_id.clone(),
        title: target.title.clone(),
        source_url: target.source_url.clone(),
        html_file: match existing {
            Some(a) => a.html_file.clone(),
            None => None,
        },
        markdown_file: match existing {
            Some(a) => a.markdown_file.clone(),
            None => None,
        },
    }
}

impl ArticleReadingEnrichmentInput {
    /// The reading data of a fetched response.
    pub fn from_response(fetched: ArticleReadingEnrichmentFetchResponse) -> (r: Self)
        ensures
            r.read_count == fetched.read_count,
            r.like_count == fetched.like_count,
            r.share_count == fetched.share_count,
            r.comment_count == fetched.comment_count,
            r.paid_content == fetched.paid_content,
            r.comments == fetched.comments,
    {
        ArticleReadingEnrichmentInput {
            read_count: fetched.read_count,
            like_count: fetched.like_count,
            share_count: fetched.share_count,
            comment_count: fetched.comment_count,
            paid_content: fetched.paid_content,
            comments: fetched.comments,
        }
    }
}

impl ArticleReadingEnrichment {
    /// The reading data of `article_id` fetched at `now_unix`.
    pub fn from_input(article_id: &str, input: ArticleReadingEnrichmentInput, now_unix: i64) -> (r: Self)
        ensures
            r.article_id@ == article_id@,
            r.read_count == input.read_count,
            r.like_count == input.like_count,
            r.share_count == input.share_count,
            r.comment_count == input.comment_count,
            r.paid_content == input.paid_content,
            r.comments == input.comments,
            r.enriched_at_unix == now_unix,
    {
        ArticleReadingEnrichment {
            article_id: String::from_str(article_id),
            read_count: input.read_count,
            like_count: input.like_count,
            share_count: input.share_count,
            comment_count: input.comment_count,
            paid_content: input.paid_content,
            comments: input.comments,
            enriched_at_unix: now_unix,
        }
    }
}

impl ArticleReadingEnrichmentOutcome {
    /// The outcome of an enrichment run: how many articles were enriched and skipped.
    pub fn new(articles: Vec<ArticleReadingEnrichmentArticleOutcome>, skipped_count: u32) -> (r: Self)
        requires
            articles@.len() <= u32::MAX,
        ensures
            r.enriched_count == articles@.len(),
            r.skipped_count == skipped_count,
            r.articles == articles,
    {
        ArticleReadingEnrichmentOutcome {
            enriched_count: articles.len() as u32,
            skipped_count,
            articles,
        }
    }
}

/// Fetches reading data through a transport with the stored reading credential.
pub struct ArticleReadingEnrichmentClient<T, B> {
    transport: T,
    secret_store: SecretStore<B>,
    now_unix: i64,
}

impl<T: ArticleReadingEnrichmentTransport, B: SecretBackend> ArticleReadingEnrichmentClient<T, B> {
    pub closed spec fn secrets(&self) -> Map<SecretSlot, Seq<char>> {
        self.secret_store.stored()
    }

    /// The transport the client fetches through.
    pub closed spec fn transport(&self) -> T {
        self.transport
    }

    pub closed spec fn now(&self) -> i64 {
        self.now_unix
    }

    pub fn new(transport: T, secret_store: SecretStore<B>, now_unix: i64) -> (r: Self)
        ensures
            r.secrets() == secret_store.stored(),
            r.now() == now_unix,
    {
        ArticleReadingEnrichmentClient { transport, secret_store, now_unix }
    }

    /// The time the client judges credentials at.
    pub fn now_unix(&self) -> (r: i64)
        ensures
            r == self.now(),
    {
        self.now_unix
    }

    /// The stored credential text, if any.
    pub fn credential_text(&self) -> (r: Result<Option<String>, ArticleReadingEnrichmentError>)
        ensures
            B::obeys_store_laws() ==> (r matches Ok(v) ==> (v is Some <==> self.secrets().contains_key(
                SecretSlot::ArticleReadingCredential,
            ))),
            B::obeys_store_laws() ==> (r matches Ok(Some(v)) ==> v@ == self.secrets()[SecretSlot::ArticleReadingCredential]),
            r matches Err(e) ==> e is SecretStore,
    {
        match self.secret_store.read(SecretSlot::ArticleReadingCredential) {
            Ok(v) => Ok(v),
            Err(e) => Err(ArticleReadingEnrichmentError::SecretStore(e)),
        }
    }

    /// The reading data of one article, or the transport's error.
    pub fn fetch(&self, request: ArticleReadingEnrichmentFetchRequest) -> (r: Result<
        ArticleReadingEnrichmentFetchResponse,
        ArticleReadingEnrichmentError,
    >)
        ensures
            r matches Err(e) ==> e is Transport,
            r matches Ok(v) ==> self.transport().reading_answer_allowed(request, Ok(v)),
            r matches Err(ArticleReadingEnrichmentError::Transport(m)) ==> self.transport().reading_answer_allowed(
                request,
                Err(m),
            ),
    {
        match self.transport.fetch(request) {
            Ok(v) => Ok(v),
            Err(e) => Err(ArticleReadingEnrichmentError::Transport(e)),
        }
    }
}

} // verus!
