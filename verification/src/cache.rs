use vstd::prelude::*;

verus! {

/// How long a discovered configuration stays valid: thirty days, in milliseconds.
pub const EXPIRE_TIME_MS: i64 = 30 * 24 * 60 * 60 * 1000;

/// A configuration found for a domain, with the time (in milliseconds since
/// the Unix epoch) at which it was found.
#[derive(Clone, Debug, Default, PartialEq, Eq)]
pub struct CachedMailSettings<C> {
    pub domain: String,
    pub config: C,
    pub created_at: i64,
}

/// What a lookup in the cache comes to.
#[derive(Clone, Debug, PartialEq, Eq)]
pub enum CacheLookup<C> {
    /// Nothing is stored for the domain.
    Absent,
    /// The stored entry is too old: it is to be removed and counts as absent.
    Expired,
    /// The stored entry is still valid.
    Fresh(CachedMailSettings<C>),
}

/// Whether an entry made at `created_at` has expired at `now`.
pub open spec fn expired_at(created_at: i64, now: i64) -> bool {
    now - created_at > EXPIRE_TIME_MS
}

/// What a lookup at `now` gives for what the store holds.
pub open spec fn lookup_at<C>(found: Option<CachedMailSettings<C>>, now: i64) -> CacheLookup<C> {
    match found {
        None => CacheLookup::Absent,
        Some(entry) => if expired_at(entry.created_at, now) {
            CacheLookup::Expired
        } else {
            CacheLookup::Fresh(entry)
        },
    }
}

impl<C> CachedMailSettings<C> {
    /// The entry to store for `domain`, stamped with `now`.
    pub fn add(domain: String, config: C, now: i64) -> (r: Self)
        ensures
            r.domain == domain,
            r.config == config,
            r.created_at == now,
    {
        CachedMailSettings { domain, config, created_at: now }
    }

    /// Whether the entry has expired at `now`.
    pub fn is_expired(&self, now: i64) -> (r: bool)
        requires
            i64::MIN <= now - self.created_at <= i64::MAX,
        ensures
            r == expired_at(self.created_at, now),
    {
        now - self.created_at > EXPIRE_TIME_MS
    }

    /// Decides what the stored entry `found` for a domain gives at `now`.
    pub fn get(found: Option<Self>, now: i64) -> (r: CacheLookup<C>)
        requires
            found matches Some(entry) ==> i64::MIN <= now - entry.created_at <= i64::MAX,
        ensures
            r == lookup_at(found, now),
    {
        match found {
            None => CacheLookup::Absent,
            Some(entry) => {
                if entry.is_expired(now) {
                    CacheLookup::Expired
                } else {
                    CacheLookup::Fresh(entry)
                }
            },
        }
    }
}

/// An entry stored at `created` is given back unchanged by every lookup up to
/// thirty days later, and counts as expired after that.
pub proof fn lemma_lookup_after_add<C>(domain: String, config: C, created: i64, now: i64)
    requires
        i64::MIN <= now - created <= i64::MAX,
    ensures
        EXPIRE_TIME_MS == 30 * 24 * 60 * 60 * 1000,
        lookup_at(None::<CachedMailSettings<C>>, now) == CacheLookup::<C>::Absent,
        now - created <= EXPIRE_TIME_MS ==> lookup_at(
            Some(CachedMailSettings { domain, config, created_at: created }),
            now,
        ) == CacheLookup::Fresh(CachedMailSettings { domain, config, created_at: created }),
        now - created > EXPIRE_TIME_MS ==> lookup_at(
            Some(CachedMailSettings { domain, config, created_at: created }),
            now,
        ) == CacheLookup::<C>::Expired,
{
}

} // verus!
