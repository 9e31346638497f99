//! Credential storage by slot. Each secret has a slot of its own, so that the Official
//! Account login and the article reading credential never overwrite each other.
use vstd::prelude::*;

use crate::text::chars_of;

verus! {

/// The service name under which secrets are kept in the platform credential store.
pub const SERVICE_NAME: &'static str = "wechat-article-exporter-desktop";

/// The two kinds of secret the application keeps.
#[derive(Clone, Copy, Debug, Eq, PartialEq, Hash, Structural)]
pub enum SecretSlot {
    OfficialAccountLogin,
    ArticleReadingCredential,
}

/// The storage key of a slot.
pub open spec fn slot_key(slot: SecretSlot) -> Seq<char> {
    match slot {
        SecretSlot::OfficialAccountLogin => "official-account-login"@,
        SecretSlot::ArticleReadingCredential => "article-reading-credential"@,
    }
}

impl SecretSlot {
    /// Every slot that holds a credential, in the order in which they are cleared.
    pub fn all_credentials() -> (r: [SecretSlot; 2])
        ensures
            r@ == seq![SecretSlot::OfficialAccountLogin, SecretSlot::ArticleReadingCredential],
    {
        let r = [SecretSlot::OfficialAccountLogin, SecretSlot::ArticleReadingCredential];
        assert(r@ =~= seq![SecretSlot::OfficialAccountLogin, SecretSlot::ArticleReadingCredential]);
        r
    }

    /// The key under which the slot is stored.
    pub fn key(self) -> (r: &'static str)
        ensures
            r@ == slot_key(self),
    {
        match self {
            SecretSlot::OfficialAccountLogin => {
                proof {
                    reveal_strlit("official-account-login");
                }
                "official-account-login"
            },
            SecretSlot::ArticleReadingCredential => {
                proof {
                    reveal_strlit("article-reading-credential");
                }
                "article-reading-credential"
            },
        }
    }
}

/// The two slots have different keys.
pub proof fn lemma_slot_keys_distinct()
    ensures
        slot_key(SecretSlot::OfficialAccountLogin) != slot_key(
            SecretSlot::ArticleReadingCredential,
        ),
{
    reveal_strlit("official-account-login");
    reveal_strlit("article-reading-credential");
    assert(slot_key(SecretSlot::OfficialAccountLogin).len() != slot_key(
        SecretSlot::ArticleReadingCredential,
    ).len());
}

#[derive(Debug, Clone, Eq, PartialEq)]
pub enum SecretStoreError {
    Backend(String),
    LockPoisoned,
    UnsupportedPlatform,
}

impl SecretStoreError {
    /// The message shown for the error.
    pub fn message(&self) -> (r: String)
        ensures
            self is LockPoisoned ==> r@ == "secret store lock was poisoned"@,
            self is UnsupportedPlatform ==> r@
                == "secret store backend is not configured for this platform"@,
            self matches SecretStoreError::Backend(e) ==> r@ == "secret store backend error: "@
                + e@,
    {
        match self {
            SecretStoreError::Backend(error) => {
                let mut out = chars_of("secret store backend error: ");
                crate::text::push_all(&mut out, &chars_of(error.as_str()));
                crate::text::string_of(out.as_slice())
            },
            SecretStoreError::LockPoisoned => String::from_str("secret store lock was poisoned"),
            SecretStoreError::UnsupportedPlatform => String::from_str(
                "secret store backend is not configured for this platform",
            ),
        }
    }
}

/// What a save of `value` in `slot` that returned `r` leaves: on success the slot holds the
/// value and nothing else changed; on error nothing changed.
pub open spec fn save_outcome(
    before: Map<SecretSlot, Seq<char>>,
    after: Map<SecretSlot, Seq<char>>,
    slot: SecretSlot,
    value: Seq<char>,
    r: Result<(), SecretStoreError>,
) -> bool {
    &&& r is Ok ==> after == before.insert(slot, value)
    &&& r is Err ==> after == before
}

/// What a read of `slot` that returned `r` says of `stored`: a successful read gives the
/// slot's value when it holds one and nothing when it is empty.
pub open spec fn read_outcome(
    stored: Map<SecretSlot, Seq<char>>,
    slot: SecretSlot,
    r: Result<Option<String>, SecretStoreError>,
) -> bool {
    &&& r matches Ok(v) ==> (v is Some <==> stored.contains_key(slot))
    &&& r matches Ok(Some(v)) ==> v@ == stored[slot]
}

/// What a delete of `slot` that returned `r` leaves: on success the slot is empty and
/// nothing else changed; on error nothing changed.
pub open spec fn delete_outcome(
    before: Map<SecretSlot, Seq<char>>,
    after: Map<SecretSlot, Seq<char>>,
    slot: SecretSlot,
    r: Result<(), SecretStoreError>,
) -> bool {
    &&& r is Ok ==> after == before.remove(slot)
    &&& r is Err ==> after == before
}

/// Where secrets are kept.
///
/// A backend that declares `obeys_store_laws` keeps a map `stored` from slot to secret and
/// either does what it is asked or reports an error and leaves the map as it was; the
/// contracts below hold of such backends. Backends that declare nothing (such as one built on
/// a platform credential store, whose contents other programs may change) promise nothing.
pub trait SecretBackend: Sized {
    open spec fn obeys_store_laws() -> bool {
        false
    }

    open spec fn stored(&self) -> Map<SecretSlot, Seq<char>> {
        Map::empty()
    }

    /// Whether every request succeeds (a backend that declares nothing may fail).
    open spec fn always_succeeds() -> bool {
        false
    }

    /// The error a backend answers every request with, where it refuses them all.
    open spec fn refusal() -> Option<SecretStoreError> {
        None
    }

    /// Whether the backend may answer a save of `value` in `slot` with `answer` and be
    /// `after` once it has.
    open spec fn save_answer_allowed(
        &self,
        slot: SecretSlot,
        value: Seq<char>,
        answer: Result<(), SecretStoreError>,
        after: Self,
    ) -> bool {
        true
    }

    /// Whether the backend may answer a read of `slot` with `answer`.
    open spec fn read_answer_allowed(
        &self,
        slot: SecretSlot,
        answer: Result<Option<String>, SecretStoreError>,
    ) -> bool {
        true
    }

    /// Whether the backend may answer a delete of `slot` with `answer` and be `after` once it
    /// has.
    open spec fn delete_answer_allowed(
        &self,
        slot: SecretSlot,
        answer: Result<(), SecretStoreError>,
        after: Self,
    ) -> bool {
        true
    }

    fn save(&mut self, slot: SecretSlot, value: &str) -> (r: Result<(), SecretStoreError>)
        ensures
            Self::obeys_store_laws() ==> save_outcome(old(self).stored(), final(self).stored(), slot, value@, r),
            Self::always_succeeds() ==> r is Ok,
            old(self).save_answer_allowed(slot, value@, r, *final(self)),
            Self::refusal() matches Some(e) ==> r == Err::<(), SecretStoreError>(e),
    ;

    fn read(&self, slot: SecretSlot) -> (r: Result<Option<String>, SecretStoreError>)
        ensures
            Self::obeys_store_laws() ==> read_outcome(self.stored(), slot, r),
            Self::always_succeeds() ==> r is Ok,
            self.read_answer_allowed(slot, r),
            Self::refusal() matches Some(e) ==> r == Err::<Option<String>, SecretStoreError>(e),
    ;

    fn delete(&mut self, slot: SecretSlot) -> (r: Result<(), SecretStoreError>)
        ensures
            Self::obeys_store_laws() ==> delete_outcome(old(self).stored(), final(self).stored(), slot, r),
            Self::always_succeeds() ==> r is Ok,
            old(self).delete_answer_allowed(slot, r, *final(self)),
            Self::refusal() matches Some(e) ==> r == Err::<(), SecretStoreError>(e),
    ;
}

/// The secret store of the application, over one backend.
pub struct SecretStore<B> {
    backend: B,
}

impl<B: SecretBackend> SecretStore<B> {
    /// What the store holds, by slot.
    pub closed spec fn stored(&self) -> Map<SecretSlot, Seq<char>> {
        self.backend.stored()
    }

    /// The backend every request goes to.
    pub closed spec fn backend(&self) -> B {
        self.backend
    }

    pub fn new(backend: B) -> (r: Self)
        ensures
            r.stored() == backend.stored(),
            r.backend() == backend,
    {
        SecretStore { backend }
    }

    /// Keeps `value` in `slot`, replacing what was there.
    pub fn save(&mut self, slot: SecretSlot, value: &str) -> (r: Result<(), SecretStoreError>)
        ensures
            B::obeys_store_laws() ==> save_outcome(old(self).stored(), final(self).stored(), slot, value@, r),
            B::always_succeeds() ==> r is Ok,
            old(self).backend().save_answer_allowed(slot, value@, r, final(self).backend()),
            B::refusal() matches Some(e) ==> r == Err::<(), SecretStoreError>(e),
    {
        self.backend.save(slot, value)
    }

    /// What `slot` holds, if anything.
    pub fn read(&self, slot: SecretSlot) -> (r: Result<Option<String>, SecretStoreError>)
        ensures
            B::obeys_store_laws() ==> read_outcome(self.stored(), slot, r),
            B::always_succeeds() ==> r is Ok,
            self.backend().read_answer_allowed(slot, r),
            B::refusal() matches Some(e) ==> r == Err::<Option<String>, SecretStoreError>(e),
    {
        self.backend.read(slot)
    }

    /// Removes what `slot` holds.
    pub fn delete(&mut self, slot: SecretSlot) -> (r: Result<(), SecretStoreError>)
        ensures
            B::obeys_store_laws() ==> delete_outcome(old(self).stored(), final(self).stored(), slot, r),
            B::always_succeeds() ==> r is Ok,
            old(self).backend().delete_answer_allowed(slot, r, final(self).backend()),
            B::refusal() matches Some(e) ==> r == Err::<(), SecretStoreError>(e),
    {
        self.backend.delete(slot)
    }

    /// Removes every credential, slot by slot; stops at the first error.
    pub fn clear_credentials(&mut self) -> (r: Result<(), SecretStoreError>)
        ensures
            B::obeys_store_laws() ==> (r is Ok ==> final(self).stored() == old(self).stored().remove(
                SecretSlot::OfficialAccountLogin,
            ).remove(SecretSlot::ArticleReadingCredential)),
            B::obeys_store_laws() ==> (r is Ok ==> !final(self).stored().contains_key(SecretSlot::OfficialAccountLogin)
                && !final(self).stored().contains_key(SecretSlot::ArticleReadingCredential)),
            B::obeys_store_laws() ==> (r is Err ==> final(self).stored() == old(self).stored() || final(self).stored()
                == old(self).stored().remove(SecretSlot::OfficialAccountLogin)),
            B::always_succeeds() ==> r is Ok,
            B::refusal() matches Some(e) ==> r == Err::<(), SecretStoreError>(e),
    {
        let slots = SecretSlot::all_credentials();
        let ghost start = self.stored();
        let mut k: usize = 0;
        while k < 2
            invariant
                k <= 2,
                start == old(self).stored(),
                slots@ == seq![SecretSlot::OfficialAccountLogin, SecretSlot::ArticleReadingCredential],
                B::refusal() is Some ==> k == 0,
                B::obeys_store_laws() ==> (k == 0 ==> self.stored() == start),
                B::obeys_store_laws() ==> (k == 1 ==> self.stored() == start.remove(SecretSlot::OfficialAccountLogin)),
                B::obeys_store_laws() ==> (k == 2 ==> self.stored() == start.remove(SecretSlot::OfficialAccountLogin).remove(
                    SecretSlot::ArticleReadingCredential,
                )),
            decreases 2 - k,
        {
            let slot = slots[k];
            match self.delete(slot) {
                Ok(()) => {},
                Err(e) => {
                    return Err(e);
                },
            }
            k = k + 1;
        }
        Ok(())
    }
}

/// A backend that keeps secrets in memory, for tests and for sessions that persist nothing.
/// Stores built one after another over `&mut` the same backend share its secrets.
#[derive(Debug)]
pub struct MemorySecretBackend {
    official_account_login: Option<String>,
    article_reading_credential: Option<String>,
}

/// The map of the slots that hold a value.
pub open spec fn slots_of(
    official_account_login: Option<String>,
    article_reading_credential: Option<String>,
) -> Map<SecretSlot, Seq<char>> {
    let m = Map::<SecretSlot, Seq<char>>::empty();
    let m = match official_account_login {
        Some(v) => m.insert(SecretSlot::OfficialAccountLogin, v@),
        None => m,
    };
    match article_reading_credential {
        Some(v) => m.insert(SecretSlot::ArticleReadingCredential, v@),
        None => m,
    }
}

impl MemorySecretBackend {
    /// An empty backend.
    pub fn new() -> (r: Self)
        ensures
            r.stored() == Map::<SecretSlot, Seq<char>>::empty(),
    {
        let r = MemorySecretBackend { official_account_login: None, article_reading_credential: None };
        assert(r.stored() =~= Map::<SecretSlot, Seq<char>>::empty());
        r
    }
}

impl Default for MemorySecretBackend {
    fn default() -> (r: Self)
        ensures
            r.stored() == Map::<SecretSlot, Seq<char>>::empty(),
    {
        MemorySecretBackend::new()
    }
}

impl SecretBackend for MemorySecretBackend {
    open spec fn obeys_store_laws() -> bool {
        true
    }

    open spec fn always_succeeds() -> bool {
        true
    }

    closed spec fn stored(&self) -> Map<SecretSlot, Seq<char>> {
        slots_of(self.official_account_login, self.article_reading_credential)
    }

    fn save(&mut self, slot: SecretSlot, value: &str) -> (r: Result<(), SecretStoreError>)
        ensures
            r is Ok,
    {
        let ghost before = self.stored();
        match slot {
            SecretSlot::OfficialAccountLogin => {
                self.official_account_login = Some(String::from_str(value));
            },
            SecretSlot::ArticleReadingCredential => {
                self.article_reading_credential = Some(String::from_str(value));
            },
        }
        assert(self.stored() =~= before.insert(slot, value@));
        Ok(())
    }

    fn read(&self, slot: SecretSlot) -> (r: Result<Option<String>, SecretStoreError>)
        ensures
            r is Ok,
    {
        match slot {
            SecretSlot::OfficialAccountLogin => match &self.official_account_login {
                Some(v) => Ok(Some(v.clone())),
                None => Ok(None),
            },
            SecretSlot::ArticleReadingCredential => match &self.article_reading_credential {
                Some(v) => Ok(Some(v.clone())),
                None => Ok(None),
            },
        }
    }

    fn delete(&mut self, slot: SecretSlot) -> (r: Result<(), SecretStoreError>)
        ensures
            r is Ok,
    {
        let ghost before = self.stored();
        match slot {
            SecretSlot::OfficialAccountLogin => {
                self.official_account_login = None;
            },
            SecretSlot::ArticleReadingCredential => {
                self.article_reading_credential = None;
            },
        }
        assert(self.stored() =~= before.remove(slot));
        Ok(())
    }
}

/// The backend of a platform without a credential store: every request fails.
#[derive(Clone, Copy, Debug)]
pub struct UnsupportedSecretBackend;

impl Default for UnsupportedSecretBackend {
    fn default() -> (r: Self) {
        UnsupportedSecretBackend
    }
}

impl SecretBackend for UnsupportedSecretBackend {
    open spec fn obeys_store_laws() -> bool {
        true
    }

    open spec fn refusal() -> Option<SecretStoreError> {
        Some(SecretStoreError::UnsupportedPlatform)
    }

    open spec fn save_answer_allowed(
        &self,
        slot: SecretSlot,
        value: Seq<char>,
        answer: Result<(), SecretStoreError>,
        after: Self,
    ) -> bool {
        answer == Err::<(), SecretStoreError>(SecretStoreError::UnsupportedPlatform)
    }

    open spec fn read_answer_allowed(
        &self,
        slot: SecretSlot,
        answer: Result<Option<String>, SecretStoreError>,
    ) -> bool {
        answer == Err::<Option<String>, SecretStoreError>(SecretStoreError::UnsupportedPlatform)
    }

    open spec fn delete_answer_allowed(
        &self,
        slot: SecretSlot,
        answer: Result<(), SecretStoreError>,
        after: Self,
    ) -> bool {
        answer == Err::<(), SecretStoreError>(SecretStoreError::UnsupportedPlatform)
    }

    open spec fn stored(&self) -> Map<SecretSlot, Seq<char>> {
        Map::empty()
    }

    fn save(&mut self, slot: SecretSlot, value: &str) -> (r: Result<(), SecretStoreError>)
        ensures
            r == Err::<(), SecretStoreError>(SecretStoreError::UnsupportedPlatform),
    {
        Err(SecretStoreError::UnsupportedPlatform)
    }

    fn read(&self, slot: SecretSlot) -> (r: Result<Option<String>, SecretStoreError>)
        ensures
            r == Err::<Option<String>, SecretStoreError>(SecretStoreError::UnsupportedPlatform),
    {
        Err(SecretStoreError::UnsupportedPlatform)
    }

    fn delete(&mut self, slot: SecretSlot) -> (r: Result<(), SecretStoreError>)
        ensures
            r == Err::<(), SecretStoreError>(SecretStoreError::UnsupportedPlatform),
    {
        Err(SecretStoreError::UnsupportedPlatform)
    }
}

/// The secret store of a platform without a supported credential store: it holds nothing
/// and answers every request with `UnsupportedPlatform`.
pub fn production_secret_store() -> (r: SecretStore<UnsupportedSecretBackend>)
    ensures
        r.stored() == Map::<SecretSlot, Seq<char>>::empty(),
        r.backend() == UnsupportedSecretBackend,
{
    SecretStore::new(UnsupportedSecretBackend)
}

/// A read after a successful save of the same slot gives back the saved value.
pub proof fn law_read_after_save(
    before: Map<SecretSlot, Seq<char>>,
    after: Map<SecretSlot, Seq<char>>,
    slot: SecretSlot,
    value: Seq<char>,
    read: Result<Option<String>, SecretStoreError>,
)
    requires
        save_outcome(before, after, slot, value, Ok(())),
        read_outcome(after, slot, read),
        read is Ok,
    ensures
        read matches Ok(Some(v)) && v@ == value,
{
}

/// Saving or deleting one slot, successfully or not, leaves every other slot as it was:
/// a read of the other slot gives what it gave before.
pub proof fn law_slots_are_independent(
    before: Map<SecretSlot, Seq<char>>,
    after: Map<SecretSlot, Seq<char>>,
    slot: SecretSlot,
    other: SecretSlot,
    value: Seq<char>,
    r: Result<(), SecretStoreError>,
    read_before: Result<Option<String>, SecretStoreError>,
    read_after: Result<Option<String>, SecretStoreError>,
)
    requires
        slot != other,
        save_outcome(before, after, slot, value, r) || delete_outcome(before, after, slot, r),
        read_outcome(before, other, read_before),
        read_outcome(after, other, read_after),
    ensures
        after.contains_key(other) == before.contains_key(other),
        after.contains_key(other) ==> after[other] == before[other],
        read_before matches Ok(x) ==> (read_after matches Ok(y) ==> (x is Some <==> y is Some)),
        read_before matches Ok(Some(x)) ==> (read_after matches Ok(Some(y)) ==> x@ == y@),
{
}

/// A read after a successful delete of the same slot gives nothing.
pub proof fn law_read_after_delete(
    before: Map<SecretSlot, Seq<char>>,
    after: Map<SecretSlot, Seq<char>>,
    slot: SecretSlot,
    read: Result<Option<String>, SecretStoreError>,
)
    requires
        delete_outcome(before, after, slot, Ok(())),
        read_outcome(after, slot, read),
        read is Ok,
    ensures
        read == Ok::<Option<String>, SecretStoreError>(None),
{
}

/// A failed save or delete changes nothing.
pub proof fn law_failed_write_changes_nothing(
    before: Map<SecretSlot, Seq<char>>,
    after: Map<SecretSlot, Seq<char>>,
    slot: SecretSlot,
    value: Seq<char>,
    e: SecretStoreError,
)
    requires
        save_outcome(before, after, slot, value, Err(e)) || delete_outcome(before, after, slot, Err(e)),
    ensures
        after == before,
{
}

/// A memory backend lent to a store for a while: every request goes to the lent backend, so
/// stores built one after another over the same backend share its secrets.
impl<'a> SecretBackend for &'a mut MemorySecretBackend {
    open spec fn obeys_store_laws() -> bool {
        true
    }

    open spec fn stored(&self) -> Map<SecretSlot, Seq<char>> {
        (**self).stored()
    }

    open spec fn always_succeeds() -> bool {
        true
    }

    fn save(&mut self, slot: SecretSlot, value: &str) -> (r: Result<(), SecretStoreError>) {
        (**self).save(slot, value)
    }

    fn read(&self, slot: SecretSlot) -> (r: Result<Option<String>, SecretStoreError>) {
        (**self).read(slot)
    }

    fn delete(&mut self, slot: SecretSlot) -> (r: Result<(), SecretStoreError>) {
        (**self).delete(slot)
    }
}

} // verus!
