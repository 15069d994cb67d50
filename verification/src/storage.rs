//! The registry state: keyed stores for companies, challenges, security
//! events, monitoring tasks, alerts and proof-monitoring records, plus the
//! per-class rate-limit tables.
//!
//! Each store is a [`Table`] of records with unique keys.  A table behaves
//! as a map from key to record; its contract is stated through the spec
//! functions [`Table::contains_key`] and [`Table::lookup`].

use vstd::prelude::*;
use crate::ratelimit::{RateLimiter, rl_admit, rl_next, window_start, pruned_hist};
use crate::text::{decimal_seq, decimal_string, str_eq};
use crate::types::{
    ChainType, Company, CommunityAlert, CommunityReport, CrossChainChallenge,
    DomainVerificationChallenge, MonitoringTask, Principal, ProofMonitoring, ProofStatus,
    RegistryError, RegistryResult, SecurityEvent, SecuritySeverity, VerificationProof,
    VerificationType,
};

verus! {

/// A record stored under a text key derived from its own fields.
pub trait KeyedRecord: Sized {
    /// The key the record is stored under.
    spec fn key(&self) -> Seq<char>;

    /// Executable comparison of the record's key against `k`.
    fn key_matches(&self, k: &str) -> (r: bool)
        ensures
            r == (self.key() == k@),
    ;

    /// Executable comparison of two records' keys.
    fn same_key(&self, other: &Self) -> (r: bool)
        ensures
            r == (self.key() == other.key()),
    ;
}

/// A vector of records with pairwise distinct keys, read as a map.
pub struct Table<T> {
    pub items: Vec<T>,
}

impl<T: KeyedRecord> Table<T> {
    /// Keys are unique.
    pub open spec fn wf(self) -> bool {
        forall|i: int, j: int|
            0 <= i < j < self.items@.len()
                ==> (#[trigger] self.items@[i]).key() != (#[trigger] self.items@[j]).key()
    }

    pub open spec fn contains_key(self, k: Seq<char>) -> bool {
        exists|i: int| 0 <= i < self.items@.len() && (#[trigger] self.items@[i]).key() == k
    }

    /// The record stored under `k`, when one exists.
    pub open spec fn lookup(self, k: Seq<char>) -> Option<T> {
        if self.contains_key(k) {
            let i = choose|i: int| 0 <= i < self.items@.len()
                && (#[trigger] self.items@[i]).key() == k;
            Some(self.items@[i])
        } else {
            None
        }
    }

    pub fn new() -> (r: Table<T>)
        ensures
            r.wf(),
            r.items@.len() == 0,
            forall|k: Seq<char>| #[trigger] r.lookup(k) is None,
    {
        Table { items: Vec::new() }
    }

    /// The index of the record keyed `k`, when one exists.
    pub fn index_of(&self, k: &str) -> (r: Option<usize>)
        ensures
            match r {
                Some(i) => i < self.items@.len() && self.items@[i as int].key() == k@,
                None => !self.contains_key(k@),
            },
    {
        let mut i: usize = 0;
        while i < self.items.len()
            invariant
                i <= self.items@.len(),
                forall|j: int| 0 <= j < i ==> (#[trigger] self.items@[j]).key() != k@,
            decreases self.items@.len() - i,
        {
            if self.items[i].key_matches(k) {
                return Some(i);
            }
            i = i + 1;
        }
        None
    }

    /// Borrows the record keyed `k`, when one exists.
    pub fn get(&self, k: &str) -> (r: Option<&T>)
        requires
            self.wf(),
        ensures
            match r {
                Some(v) => self.lookup(k@) == Some(*v),
                None => self.lookup(k@) is None,
            },
    {
        match self.index_of(k) {
            Some(i) => {
                proof {
                    let w = choose|w: int| 0 <= w < self.items@.len()
                        && (#[trigger] self.items@[w]).key() == k@;
                    assert(w == i as int);
                }
                Some(&self.items[i])
            },
            None => None,
        }
    }

    /// Removes and returns the record at index `i`.  Records under other
    /// keys are unaffected.
    pub fn remove_at(&mut self, i: usize) -> (r: T)
        requires
            old(self).wf(),
            i < old(self).items@.len(),
        ensures
            final(self).wf(),
            r == old(self).items@[i as int],
            final(self).items@ == old(self).items@.remove(i as int),
            !final(self).contains_key(r.key()),
            forall|k: Seq<char>| k != r.key()
                ==> #[trigger] final(self).lookup(k) == old(self).lookup(k),
    {
        let r = self.items.remove(i);
        proof {
            let pre = old(self).items@;
            let post = self.items@;
            assert forall|a: int, b: int| 0 <= a < b < post.len()
                implies (#[trigger] post[a]).key() != (#[trigger] post[b]).key() by {
                let a0 = if a < i { a } else { a + 1 };
                let b0 = if b < i { b } else { b + 1 };
                assert(post[a] == pre[a0] && post[b] == pre[b0]);
            }
            if self.contains_key(r.key()) {
                let w = choose|w: int| 0 <= w < post.len()
                    && (#[trigger] post[w]).key() == r.key();
                let w0 = if w < i { w } else { w + 1 };
                assert(pre[w0] == post[w]);
                assert(pre[w0].key() == pre[i as int].key());
                assert(false);
            }
            assert forall|k: Seq<char>| k != r.key()
                implies #[trigger] self.lookup(k) == old(self).lookup(k) by {
                if old(self).contains_key(k) {
                    let j = choose|j: int| 0 <= j < pre.len()
                        && (#[trigger] pre[j]).key() == k;
                    assert(j != i);
                    let jn = if j < i { j } else { j - 1 };
                    assert(post[jn] == pre[j]);
                    assert(self.contains_key(k));
                    let a = choose|a: int| 0 <= a < post.len()
                        && (#[trigger] post[a]).key() == k;
                    assert(a == jn) by {
                        if a != jn {
                            assert(post[a].key() == post[jn].key());
                        }
                    }
                } else {
                    if self.contains_key(k) {
                        let a = choose|a: int| 0 <= a < post.len()
                            && (#[trigger] post[a]).key() == k;
                        let a0 = if a < i { a } else { a + 1 };
                        assert(pre[a0] == post[a]);
                        assert(old(self).contains_key(k));
                    }
                }
            }
        }
        r
    }

    /// Inserts a record with a fresh key at index `i`.  Records under other
    /// keys are unaffected.
    pub fn insert_at(&mut self, i: usize, v: T)
        requires
            old(self).wf(),
            i <= old(self).items@.len(),
            !old(self).contains_key(v.key()),
        ensures
            final(self).wf(),
            final(self).items@ == old(self).items@.insert(i as int, v),
            final(self).lookup(v.key()) == Some(v),
            forall|k: Seq<char>| k != v.key()
                ==> #[trigger] final(self).lookup(k) == old(self).lookup(k),
    {
        self.items.insert(i, v);
        proof {
            let pre = old(self).items@;
            let post = self.items@;
            assert forall|a: int, b: int| 0 <= a < b < post.len()
                implies (#[trigger] post[a]).key() != (#[trigger] post[b]).key() by {
                if a != i && b != i {
                    let a0 = if a < i { a } else { a - 1 };
                    let b0 = if b < i { b } else { b - 1 };
                    assert(post[a] == pre[a0] && post[b] == pre[b0]);
                } else if a == i {
                    let b0 = b - 1;
                    assert(post[b] == pre[b0]);
                    assert(post[a].key() == v.key());
                    if post[b].key() == v.key() {
                        assert(old(self).contains_key(v.key()));
                    }
                } else {
                    let a0 = a;
                    assert(post[a] == pre[a0]);
                    assert(post[b].key() == v.key());
                    if post[a].key() == v.key() {
                        assert(old(self).contains_key(v.key()));
                    }
                }
            }
            assert(post[i as int] == v);
            assert(self.contains_key(v.key()));
            let w = choose|w: int| 0 <= w < post.len()
                && (#[trigger] post[w]).key() == v.key();
            assert(w == i as int) by {
                if w != i {
                    assert(post[w].key() == post[i as int].key());
                }
            }
            assert forall|k: Seq<char>| k != v.key()
                implies #[trigger] self.lookup(k) == old(self).lookup(k) by {
                if old(self).contains_key(k) {
                    let j = choose|j: int| 0 <= j < pre.len()
                        && (#[trigger] pre[j]).key() == k;
                    let jn = if j < i { j } else { j + 1 };
                    assert(post[jn] == pre[j]);
                    assert(self.contains_key(k));
                    let a = choose|a: int| 0 <= a < post.len()
                        && (#[trigger] post[a]).key() == k;
                    assert(a == jn) by {
                        if a != jn {
                            assert(post[a].key() == post[jn].key());
                        }
                    }
                } else {
                    if self.contains_key(k) {
                        let a = choose|a: int| 0 <= a < post.len()
                            && (#[trigger] post[a]).key() == k;
                        assert(a != i);
                        let a0 = if a < i { a } else { a - 1 };
                        assert(pre[a0] == post[a]);
                        assert(old(self).contains_key(k));
                    }
                }
            }
        }
    }

    /// The index of the record whose key equals `v`'s, when one exists.
    fn index_of_same(&self, v: &T) -> (r: Option<usize>)
        ensures
            match r {
                Some(i) => i < self.items@.len() && self.items@[i as int].key() == v.key(),
                None => !self.contains_key(v.key()),
            },
    {
        let mut i: usize = 0;
        while i < self.items.len()
            invariant
                i <= self.items@.len(),
                forall|j: int| 0 <= j < i ==> (#[trigger] self.items@[j]).key() != v.key(),
            decreases self.items@.len() - i,
        {
            if self.items[i].same_key(v) {
                return Some(i);
            }
            i = i + 1;
        }
        None
    }

    /// Inserts the record under its key, replacing any previous record with
    /// the same key.
    pub fn upsert(&mut self, v: T)
        requires
            old(self).wf(),
        ensures
            final(self).wf(),
            final(self).lookup(v.key()) == Some(v),
            forall|k: Seq<char>| k != v.key()
                ==> #[trigger] final(self).lookup(k) == old(self).lookup(k),
            old(self).items@.len() <= final(self).items@.len() <= old(self).items@.len() + 1,
    {
        let ghost vk = v.key();
        let found = self.index_of_same(&v);
        match found {
            Some(i) => {
                let _old = self.remove_at(i);
                proof {
                    assert(_old.key() == vk);
                }
                self.insert_at(i, v);
            },
            None => {
                proof {
                    assert(!self.contains_key(vk));
                }
                let n = self.items.len();
                self.insert_at(n, v);
            },
        }
    }

    /// Removes the record keyed `k`, returning it when it existed.
    pub fn remove_key(&mut self, k: &str) -> (r: Option<T>)
        requires
            old(self).wf(),
        ensures
            final(self).wf(),
            r == old(self).lookup(k@),
            final(self).lookup(k@) is None,
            forall|k2: Seq<char>| k2 != k@
                ==> #[trigger] final(self).lookup(k2) == old(self).lookup(k2),
            final(self).items@.len() <= old(self).items@.len(),
            old(self).lookup(k@) matches Some(v) ==> exists|i: int|
                0 <= i < old(self).items@.len() && old(self).items@[i] == v
                && (#[trigger] old(self).items@[i]).key() == k@
                && final(self).items@ == old(self).items@.remove(i),
            old(self).lookup(k@) is None ==> final(self).items@ == old(self).items@,
    {
        match self.index_of(k) {
            Some(i) => {
                proof {
                    let w = choose|w: int| 0 <= w < self.items@.len()
                        && (#[trigger] self.items@[w]).key() == k@;
                    assert(w == i as int);
                }
                let v = self.remove_at(i);
                Some(v)
            },
            None => None,
        }
    }

    pub fn len(&self) -> (n: usize)
        ensures
            n == self.items@.len(),
    {
        self.items.len()
    }

    /// In a well-formed table, the record at index `i` is what looking its
    /// key up returns.
    pub proof fn lemma_lookup_at(self, i: int)
        requires
            self.wf(),
            0 <= i < self.items@.len(),
        ensures
            self.lookup(self.items@[i].key()) == Some(self.items@[i]),
    {
        let k = self.items@[i].key();
        assert(self.contains_key(k));
        let w = choose|w: int| 0 <= w < self.items@.len()
            && (#[trigger] self.items@[w]).key() == k;
        assert(w == i) by {
            if w != i {
                assert(self.items@[w].key() == self.items@[i].key());
            }
        }
    }
}

// ---------------------------------------------------------------------------
// Record keys
// ---------------------------------------------------------------------------

impl KeyedRecord for Company {
    open spec fn key(&self) -> Seq<char> {
        self.id@
    }

    fn key_matches(&self, k: &str) -> (r: bool) {
        str_eq(self.id.as_str(), k)
    }

    fn same_key(&self, other: &Self) -> (r: bool) {
        str_eq(self.id.as_str(), other.id.as_str())
    }
}

impl KeyedRecord for DomainVerificationChallenge {
    open spec fn key(&self) -> Seq<char> {
        self.company_id@
    }

    fn key_matches(&self, k: &str) -> (r: bool) {
        str_eq(self.company_id.as_str(), k)
    }

    fn same_key(&self, other: &Self) -> (r: bool) {
        str_eq(self.company_id.as_str(), other.company_id.as_str())
    }
}

/// A cross-chain challenge together with the collision-free key it is stored
/// under (the key also encodes the creation time).
pub struct StoredCrossChainChallenge {
    pub challenge_key: String,
    pub challenge: CrossChainChallenge,
}

impl KeyedRecord for StoredCrossChainChallenge {
    open spec fn key(&self) -> Seq<char> {
        self.challenge_key@
    }

    fn key_matches(&self, k: &str) -> (r: bool) {
        str_eq(self.challenge_key.as_str(), k)
    }

    fn same_key(&self, other: &Self) -> (r: bool) {
        str_eq(self.challenge_key.as_str(), other.challenge_key.as_str())
    }
}

impl KeyedRecord for SecurityEvent {
    open spec fn key(&self) -> Seq<char> {
        self.event_id@
    }

    fn key_matches(&self, k: &str) -> (r: bool) {
        str_eq(self.event_id.as_str(), k)
    }

    fn same_key(&self, other: &Self) -> (r: bool) {
        str_eq(self.event_id.as_str(), other.event_id.as_str())
    }
}

impl KeyedRecord for MonitoringTask {
    open spec fn key(&self) -> Seq<char> {
        self.task_id@
    }

    fn key_matches(&self, k: &str) -> (r: bool) {
        str_eq(self.task_id.as_str(), k)
    }

    fn same_key(&self, other: &Self) -> (r: bool) {
        str_eq(self.task_id.as_str(), other.task_id.as_str())
    }
}

impl KeyedRecord for CommunityAlert {
    open spec fn key(&self) -> Seq<char> {
        self.alert_id@
    }

    fn key_matches(&self, k: &str) -> (r: bool) {
        str_eq(self.alert_id.as_str(), k)
    }

    fn same_key(&self, other: &Self) -> (r: bool) {
        str_eq(self.alert_id.as_str(), other.alert_id.as_str())
    }
}

impl KeyedRecord for ProofMonitoring {
    open spec fn key(&self) -> Seq<char> {
        self.proof_id@
    }

    fn key_matches(&self, k: &str) -> (r: bool) {
        str_eq(self.proof_id.as_str(), k)
    }

    fn same_key(&self, other: &Self) -> (r: bool) {
        str_eq(self.proof_id.as_str(), other.proof_id.as_str())
    }
}

// ---------------------------------------------------------------------------
// Sequence filtering (used by the query contracts)
// ---------------------------------------------------------------------------

/// The subsequence of `s` whose elements satisfy `p`, order kept.
pub open spec fn filtered<A>(s: Seq<A>, p: spec_fn(A) -> bool) -> Seq<A>
    decreases s.len(),
{
    if s.len() == 0 {
        Seq::<A>::empty()
    } else {
        let rest = filtered(s.drop_last(), p);
        if p(s.last()) {
            rest.push(s.last())
        } else {
            rest
        }
    }
}

// ---------------------------------------------------------------------------
// Rate-limit classes
// ---------------------------------------------------------------------------

/// General write actions: 10 per 60 seconds.
pub const HTTP_RATE_MAX: usize = 10;
pub const HTTP_RATE_WINDOW_NS: u64 = 60_000_000_000;

/// Verification attempts: 5 per 5 minutes.
pub const VERIFICATION_RATE_MAX: usize = 5;
pub const VERIFICATION_RATE_WINDOW_NS: u64 = 300_000_000_000;

/// Community reports: 3 per 10 minutes.
pub const REPORT_RATE_MAX: usize = 3;
pub const REPORT_RATE_WINDOW_NS: u64 = 600_000_000_000;

/// Idle identities are swept after 5 minutes without activity.
pub const RATE_CLEANUP_WINDOW_NS: u64 = 300_000_000_000;

// ---------------------------------------------------------------------------
// The registry state
// ---------------------------------------------------------------------------

/// All mutable state of the engine, held as explicit in-memory stores.
pub struct StorageManager {
    pub companies: Table<Company>,
    pub domain_challenges: Table<DomainVerificationChallenge>,
    pub crosschain_challenges: Table<StoredCrossChainChallenge>,
    pub security_events: Table<SecurityEvent>,
    pub monitoring_tasks: Table<MonitoringTask>,
    pub community_alerts: Table<CommunityAlert>,
    pub proof_monitoring: Table<ProofMonitoring>,
    pub http_limits: RateLimiter,
    pub verification_limits: RateLimiter,
    pub report_limits: RateLimiter,
    pub last_full_scan: u64,
}

impl StorageManager {
    /// Every store has unique keys and every stored verification score is
    /// within its 0 to 100 band.
    pub open spec fn wf(self) -> bool {
        &&& self.companies.wf()
        &&& self.domain_challenges.wf()
        &&& self.crosschain_challenges.wf()
        &&& self.security_events.wf()
        &&& self.monitoring_tasks.wf()
        &&& self.community_alerts.wf()
        &&& self.proof_monitoring.wf()
        &&& self.http_limits.wf()
        &&& self.verification_limits.wf()
        &&& self.report_limits.wf()
        &&& forall|k: Seq<char>| (#[trigger] self.companies.lookup(k)) matches Some(c)
            ==> c.verification_score <= 100
    }

    /// Every stored company's verification score is within the band (the
    /// indexed form of the bound carried by [`StorageManager::wf`]).
    pub proof fn lemma_score_bound_at(self, i: int)
        requires
            self.wf(),
            0 <= i < self.companies.items@.len(),
        ensures
            self.companies.items@[i].verification_score <= 100,
    {
        self.companies.lemma_lookup_at(i);
    }

    /// The company stored under `id`, when one exists.
    pub open spec fn company_of(self, id: Seq<char>) -> Option<Company> {
        self.companies.lookup(id)
    }

    /// The outstanding domain challenge of a company, when one exists.
    pub open spec fn domain_challenge_of(self, company_id: Seq<char>) -> Option<
        DomainVerificationChallenge,
    > {
        self.domain_challenges.lookup(company_id)
    }

    /// The cross-chain challenge stored under `key`, when one exists.
    pub open spec fn crosschain_challenge_of(self, key: Seq<char>) -> Option<CrossChainChallenge> {
        match self.crosschain_challenges.lookup(key) {
            Some(s) => Some(s.challenge),
            None => None,
        }
    }

    pub fn new() -> (r: StorageManager)
        ensures
            r.wf(),
            r.companies.items@.len() == 0,
            r.domain_challenges.items@.len() == 0,
            r.crosschain_challenges.items@.len() == 0,
            r.security_events.items@.len() == 0,
            r.monitoring_tasks.items@.len() == 0,
            r.community_alerts.items@.len() == 0,
            r.proof_monitoring.items@.len() == 0,
            r.last_full_scan == 0,
            forall|p: Principal| #[trigger] r.http_limits.history_of(p) == Seq::<u64>::empty(),
            forall|p: Principal| #[trigger] r.verification_limits.history_of(p)
                == Seq::<u64>::empty(),
            forall|p: Principal| #[trigger] r.report_limits.history_of(p) == Seq::<u64>::empty(),
    {
        StorageManager {
            companies: Table::new(),
            domain_challenges: Table::new(),
            crosschain_challenges: Table::new(),
            security_events: Table::new(),
            monitoring_tasks: Table::new(),
            community_alerts: Table::new(),
            proof_monitoring: Table::new(),
            http_limits: RateLimiter::new(),
            verification_limits: RateLimiter::new(),
            report_limits: RateLimiter::new(),
            last_full_scan: 0,
        }
    }

    // -- companies ---------------------------------------------------------

    /// Stores `company` under its identifier, replacing any previous record.
    pub fn insert_company(&mut self, company_id: String, company: Company)
        requires
            old(self).wf(),
            company.id@ == company_id@,
            company.verification_score <= 100,
        ensures
            final(self).wf(),
            final(self).company_of(company_id@) == Some(company),
            forall|k: Seq<char>| k != company_id@
                ==> #[trigger] final(self).company_of(k) == old(self).company_of(k),
            *final(self) == (StorageManager { companies: final(self).companies, ..*old(self) }),
    {
        let _ = company_id;
        self.companies.upsert(company);
    }

    /// Borrows the company stored under `company_id`.
    pub fn get_company(&self, company_id: &str) -> (r: Option<&Company>)
        requires
            self.wf(),
        ensures
            match r {
                Some(c) => self.company_of(company_id@) == Some(*c),
                None => self.company_of(company_id@) is None,
            },
    {
        self.companies.get(company_id)
    }

    /// Borrows all stored companies, in storage order.
    pub fn get_all_companies(&self) -> (r: &Vec<Company>)
        ensures
            r@ == self.companies.items@,
    {
        &self.companies.items
    }

    pub fn get_companies_count(&self) -> (n: u64)
        ensures
            n == self.companies.items@.len(),
    {
        self.companies.items.len() as u64
    }

    // -- domain challenges -------------------------------------------------

    /// Stores a domain challenge for a company, overwriting any previous one
    /// (re-issuing replaces the outstanding challenge).
    pub fn insert_domain_challenge(
        &mut self,
        company_id: String,
        challenge: DomainVerificationChallenge,
    )
        requires
            old(self).wf(),
            challenge.company_id@ == company_id@,
        ensures
            final(self).wf(),
            final(self).domain_challenge_of(company_id@) == Some(challenge),
            forall|k: Seq<char>| k != company_id@
                ==> #[trigger] final(self).domain_challenge_of(k)
                    == old(self).domain_challenge_of(k),
            *final(self) == (StorageManager {
                domain_challenges: final(self).domain_challenges,
                ..*old(self)
            }),
    {
        let _ = company_id;
        self.domain_challenges.upsert(challenge);
    }

    pub fn get_domain_challenge(&self, company_id: &str) -> (r: Option<&DomainVerificationChallenge>)
        requires
            self.wf(),
        ensures
            match r {
                Some(c) => self.domain_challenge_of(company_id@) == Some(*c),
                None => self.domain_challenge_of(company_id@) is None,
            },
    {
        self.domain_challenges.get(company_id)
    }

    /// Deletes a company's outstanding domain challenge (used on consumption
    /// and on expiry).
    pub fn remove_domain_challenge(&mut self, company_id: &str) -> (r: Option<
        DomainVerificationChallenge,
    >)
        requires
            old(self).wf(),
        ensures
            final(self).wf(),
            r == old(self).domain_challenge_of(company_id@),
            final(self).domain_challenge_of(company_id@) is None,
            forall|k: Seq<char>| k != company_id@
                ==> #[trigger] final(self).domain_challenge_of(k)
                    == old(self).domain_challenge_of(k),
            *final(self) == (StorageManager {
                domain_challenges: final(self).domain_challenges,
                ..*old(self)
            }),
    {
        self.domain_challenges.remove_key(company_id)
    }

    // -- cross-chain challenges --------------------------------------------

    /// Stores a cross-chain challenge under a generated key.
    pub fn insert_crosschain_challenge(
        &mut self,
        challenge_key: String,
        challenge: CrossChainChallenge,
    )
        requires
            old(self).wf(),
        ensures
            final(self).wf(),
            final(self).crosschain_challenge_of(challenge_key@) == Some(challenge),
            forall|k: Seq<char>| k != challenge_key@
                ==> #[trigger] final(self).crosschain_challenge_of(k)
                    == old(self).crosschain_challenge_of(k),
            *final(self) == (StorageManager {
                crosschain_challenges: final(self).crosschain_challenges,
                ..*old(self)
            }),
    {
        let ghost key_view = challenge_key@;
        let stored = StoredCrossChainChallenge { challenge_key, challenge };
        proof {
            assert(stored.key() == key_view);
        }
        self.crosschain_challenges.upsert(stored);
    }

    pub fn get_crosschain_challenge(&self, challenge_key: &str) -> (r: Option<&CrossChainChallenge>)
        requires
            self.wf(),
        ensures
            match r {
                Some(c) => self.crosschain_challenge_of(challenge_key@) == Some(*c),
                None => self.crosschain_challenge_of(challenge_key@) is None,
            },
    {
        match self.crosschain_challenges.get(challenge_key) {
            Some(s) => Some(&s.challenge),
            None => None,
        }
    }

    pub fn remove_crosschain_challenge(&mut self, challenge_key: &str) -> (r: Option<
        CrossChainChallenge,
    >)
        requires
            old(self).wf(),
        ensures
            final(self).wf(),
            r == old(self).crosschain_challenge_of(challenge_key@),
            final(self).crosschain_challenge_of(challenge_key@) is None,
            forall|k: Seq<char>| k != challenge_key@
                ==> #[trigger] final(self).crosschain_challenge_of(k)
                    == old(self).crosschain_challenge_of(k),
            old(self).crosschain_challenge_of(challenge_key@) is Some ==> exists|i: int|
                0 <= i < old(self).crosschain_challenges.items@.len()
                && (#[trigger] old(self).crosschain_challenges.items@[i]).challenge_key@
                    == challenge_key@
                && final(self).crosschain_challenges.items@
                    == old(self).crosschain_challenges.items@.remove(i),
            old(self).crosschain_challenge_of(challenge_key@) is None
                ==> final(self).crosschain_challenges.items@
                    == old(self).crosschain_challenges.items@,
            *final(self) == (StorageManager {
                crosschain_challenges: final(self).crosschain_challenges,
                ..*old(self)
            }),
    {
        match self.crosschain_challenges.remove_key(challenge_key) {
            Some(s) => Some(s.challenge),
            None => None,
        }
    }

    /// Borrows every outstanding cross-chain challenge of one company.
    pub fn get_crosschain_challenges_for_company(&self, company_id: &str) -> (r: Vec<
        &CrossChainChallenge,
    >)
        ensures
            r@.len() == filtered(
                self.crosschain_challenges.items@,
                |s: StoredCrossChainChallenge| s.challenge.company_id@ == company_id@,
            ).len(),
            forall|i: int| 0 <= i < r@.len()
                ==> *r@[i] == filtered(
                    self.crosschain_challenges.items@,
                    |s: StoredCrossChainChallenge| s.challenge.company_id@ == company_id@,
                )[i].challenge,
    {
        let ghost p = |s: StoredCrossChainChallenge| s.challenge.company_id@ == company_id@;
        let items = &self.crosschain_challenges.items;
        let mut r: Vec<&CrossChainChallenge> = Vec::new();
        let mut i: usize = 0;
        proof {
            assert(items@.subrange(0, 0) =~= Seq::<StoredCrossChainChallenge>::empty());
        }
        while i < items.len()
            invariant
                items@ == self.crosschain_challenges.items@,
                i <= items@.len(),
                r@.len() == filtered(items@.subrange(0, i as int), p).len(),
                forall|j: int| 0 <= j < r@.len()
                    ==> *r@[j] == filtered(items@.subrange(0, i as int), p)[j].challenge,
                p == (|s: StoredCrossChainChallenge| s.challenge.company_id@ == company_id@),
            decreases items@.len() - i,
        {
            if str_eq(items[i].challenge.company_id.as_str(), company_id) {
                r.push(&items[i].challenge);
            }
            i = i + 1;
            proof {
                let prefix = items@.subrange(0, i as int);
                assert(prefix.drop_last() =~= items@.subrange(0, i - 1));
                assert(prefix.last() == items@[i - 1]);
            }
        }
        proof {
            assert(items@.subrange(0, items@.len() as int) =~= items@);
        }
        r
    }

    // -- key and identifier generation -------------------------------------

    /// A fresh company identifier derived from the creation time.
    pub fn generate_company_id(now: u64) -> (r: String)
        ensures
            r@ == "company_"@ + decimal_seq(now as nat),
    {
        String::from_str("company_").concat(decimal_string(now).as_str())
    }

    /// The storage key for a cross-chain challenge: company, chain, address
    /// and creation time, underscore-separated (the time avoids collisions).
    pub fn generate_crosschain_challenge_key(
        company_id: &str,
        chain_type: &str,
        address: &str,
        now: u64,
    ) -> (r: String)
        ensures
            r@ == company_id@ + "_"@ + chain_type@ + "_"@ + address@ + "_"@
                + decimal_seq(now as nat),
    {
        String::from_str(company_id)
            .concat("_")
            .concat(chain_type)
            .concat("_")
            .concat(address)
            .concat("_")
            .concat(decimal_string(now).as_str())
    }

    /// Finds the key of the outstanding challenge for a (company, chain,
    /// address) triple, when one exists.
    pub fn find_crosschain_challenge_key(
        &self,
        company_id: &str,
        chain_type: &str,
        address: &str,
    ) -> (r: Option<String>)
        requires
            self.wf(),
        ensures
            match r {
                Some(key) => exists|i: int|
                    0 <= i < self.crosschain_challenges.items@.len()
                        && (#[trigger] self.crosschain_challenges.items@[i]).challenge_key@ == key@
                        && self.crosschain_challenges.items@[i].challenge.company_id@ == company_id@
                        && chain_name_seq(self.crosschain_challenges.items@[i].challenge.chain_type)
                            == chain_type@
                        && self.crosschain_challenges.items@[i].challenge.address_or_contract@
                            == address@
                        && (forall|j: int| 0 <= j < i
                            ==> !((#[trigger] self.crosschain_challenges.items@[j]).challenge
                                    .company_id@ == company_id@
                                && chain_name_seq(
                                    self.crosschain_challenges.items@[j].challenge.chain_type,
                                ) == chain_type@
                                && self.crosschain_challenges.items@[j].challenge
                                    .address_or_contract@ == address@)),
                None => forall|i: int|
                    0 <= i < self.crosschain_challenges.items@.len()
                        ==> !((#[trigger] self.crosschain_challenges.items@[i]).challenge.company_id@
                                == company_id@
                            && chain_name_seq(
                                self.crosschain_challenges.items@[i].challenge.chain_type,
                            ) == chain_type@
                            && self.crosschain_challenges.items@[i].challenge.address_or_contract@
                                == address@),
            },
    {
        let items = &self.crosschain_challenges.items;
        let mut i: usize = 0;
        while i < items.len()
            invariant
                items@ == self.crosschain_challenges.items@,
                i <= items@.len(),
                forall|j: int| 0 <= j < i
                    ==> !((#[trigger] items@[j]).challenge.company_id@ == company_id@
                        && chain_name_seq(items@[j].challenge.chain_type) == chain_type@
                        && items@[j].challenge.address_or_contract@ == address@),
            decreases items@.len() - i,
        {
            let s = &items[i];
            if str_eq(s.challenge.company_id.as_str(), company_id)
                && str_eq(chain_name(s.challenge.chain_type), chain_type)
                && str_eq(s.challenge.address_or_contract.as_str(), address) {
                return Some(s.challenge_key.clone());
            }
            i = i + 1;
        }
        None
    }

    // -- rate limiting -----------------------------------------------------

    /// Admits or refuses a general write action for `principal`.
    pub fn check_http_rate_limit(&mut self, principal: Principal, now: u64) -> (admitted: bool)
        requires
            old(self).wf(),
        ensures
            final(self).wf(),
            admitted == rl_admit(
                old(self).http_limits.history_of(principal),
                now,
                HTTP_RATE_WINDOW_NS,
                HTTP_RATE_MAX as nat,
            ),
            final(self).http_limits.history_of(principal) == rl_next(
                old(self).http_limits.history_of(principal),
                now,
                HTTP_RATE_WINDOW_NS,
                HTTP_RATE_MAX as nat,
            ),
            forall|q: Principal| q != principal
                ==> #[trigger] final(self).http_limits.history_of(q)
                    == old(self).http_limits.history_of(q),
            *final(self) == (StorageManager { http_limits: final(self).http_limits, ..*old(self) }),
    {
        self.http_limits.allow(principal, now, HTTP_RATE_MAX, HTTP_RATE_WINDOW_NS)
    }

    /// Admits or refuses a verification attempt for `principal`.
    pub fn check_verification_rate_limit(&mut self, principal: Principal, now: u64) -> (admitted:
        bool)
        requires
            old(self).wf(),
        ensures
            final(self).wf(),
            admitted == rl_admit(
                old(self).verification_limits.history_of(principal),
                now,
                VERIFICATION_RATE_WINDOW_NS,
                VERIFICATION_RATE_MAX as nat,
            ),
            final(self).verification_limits.history_of(principal) == rl_next(
                old(self).verification_limits.history_of(principal),
                now,
                VERIFICATION_RATE_WINDOW_NS,
                VERIFICATION_RATE_MAX as nat,
            ),
            forall|q: Principal| q != principal
                ==> #[trigger] final(self).verification_limits.history_of(q)
                    == old(self).verification_limits.history_of(q),
            *final(self) == (StorageManager {
                verification_limits: final(self).verification_limits,
                ..*old(self)
            }),
    {
        self.verification_limits.allow(principal, now, VERIFICATION_RATE_MAX, VERIFICATION_RATE_WINDOW_NS)
    }

    /// Admits or refuses a community report for `principal`.
    pub fn check_report_rate_limit(&mut self, principal: Principal, now: u64) -> (admitted: bool)
        requires
            old(self).wf(),
        ensures
            final(self).wf(),
            admitted == rl_admit(
                old(self).report_limits.history_of(principal),
                now,
                REPORT_RATE_WINDOW_NS,
                REPORT_RATE_MAX as nat,
            ),
            final(self).report_limits.history_of(principal) == rl_next(
                old(self).report_limits.history_of(principal),
                now,
                REPORT_RATE_WINDOW_NS,
                REPORT_RATE_MAX as nat,
            ),
            forall|q: Principal| q != principal
                ==> #[trigger] final(self).report_limits.history_of(q)
                    == old(self).report_limits.history_of(q),
            *final(self) == (StorageManager {
                report_limits: final(self).report_limits,
                ..*old(self)
            }),
    {
        self.report_limits.allow(principal, now, REPORT_RATE_MAX, REPORT_RATE_WINDOW_NS)
    }

    /// How many general write admissions `principal` has inside the current
    /// window, and the age of its oldest recorded timestamp.
    pub fn get_rate_limit_info(&self, principal: Principal, now: u64) -> (r: (usize, u64))
        requires
            self.wf(),
        ensures
            r.0 == pruned_hist(
                self.http_limits.history_of(principal),
                window_start(now, HTTP_RATE_WINDOW_NS),
            ).len(),
    {
        self.http_limits.info(principal, now, HTTP_RATE_WINDOW_NS)
    }

    /// Sweeps idle identities out of all rate-limit tables.
    pub fn cleanup_rate_limits(&mut self, now: u64)
        requires
            old(self).wf(),
        ensures
            final(self).wf(),
            forall|p: Principal| #[trigger] final(self).http_limits.history_of(p) == pruned_hist(
                old(self).http_limits.history_of(p),
                window_start(now, RATE_CLEANUP_WINDOW_NS),
            ),
            forall|p: Principal| #[trigger] final(self).verification_limits.history_of(p)
                == pruned_hist(
                old(self).verification_limits.history_of(p),
                window_start(now, RATE_CLEANUP_WINDOW_NS),
            ),
            forall|p: Principal| #[trigger] final(self).report_limits.history_of(p) == pruned_hist(
                old(self).report_limits.history_of(p),
                window_start(now, RATE_CLEANUP_WINDOW_NS),
            ),
            *final(self) == (StorageManager {
                http_limits: final(self).http_limits,
                verification_limits: final(self).verification_limits,
                report_limits: final(self).report_limits,
                ..*old(self)
            }),
    {
        self.http_limits.cleanup(now, RATE_CLEANUP_WINDOW_NS);
        self.verification_limits.cleanup(now, RATE_CLEANUP_WINDOW_NS);
        self.report_limits.cleanup(now, RATE_CLEANUP_WINDOW_NS);
    }

    // -- security events ---------------------------------------------------

    /// Stores an audit event under its identifier.
    pub fn store_security_event(&mut self, event: SecurityEvent)
        requires
            old(self).wf(),
        ensures
            final(self).wf(),
            final(self).security_events.lookup(event.event_id@) == Some(event),
            forall|k: Seq<char>| k != event.event_id@
                ==> #[trigger] final(self).security_events.lookup(k)
                    == old(self).security_events.lookup(k),
            old(self).security_events.items@.len() <= final(self).security_events.items@.len()
                <= old(self).security_events.items@.len() + 1,
            *final(self) == (StorageManager {
                security_events: final(self).security_events,
                ..*old(self)
            }),
    {
        self.security_events.upsert(event);
    }

    /// All stored events with the given severity, in storage order.
    pub fn get_security_events_by_severity(&self, severity: SecuritySeverity) -> (r: Vec<
        &SecurityEvent,
    >)
        ensures
            r@.len() == filtered(
                self.security_events.items@,
                |e: SecurityEvent| e.severity == severity,
            ).len(),
            forall|i: int| 0 <= i < r@.len()
                ==> *r@[i] == filtered(
                    self.security_events.items@,
                    |e: SecurityEvent| e.severity == severity,
                )[i],
    {
        let ghost p = |e: SecurityEvent| e.severity == severity;
        let items = &self.security_events.items;
        let mut r: Vec<&SecurityEvent> = Vec::new();
        let mut i: usize = 0;
        proof {
            assert(items@.subrange(0, 0) =~= Seq::<SecurityEvent>::empty());
        }
        while i < items.len()
            invariant
                items@ == self.security_events.items@,
                i <= items@.len(),
                r@.len() == filtered(items@.subrange(0, i as int), p).len(),
                forall|j: int| 0 <= j < r@.len()
                    ==> *r@[j] == filtered(items@.subrange(0, i as int), p)[j],
                p == (|e: SecurityEvent| e.severity == severity),
            decreases items@.len() - i,
        {
            if items[i].severity == severity {
                r.push(&items[i]);
            }
            i = i + 1;
            proof {
                let prefix = items@.subrange(0, i as int);
                assert(prefix.drop_last() =~= items@.subrange(0, i - 1));
                assert(prefix.last() == items@[i - 1]);
            }
        }
        proof {
            assert(items@.subrange(0, items@.len() as int) =~= items@);
        }
        r
    }

    /// All stored events attributed to the given principal, in storage
    /// order.
    pub fn get_security_events_by_principal(&self, principal: Principal) -> (r: Vec<&SecurityEvent>)
        ensures
            r@.len() == filtered(
                self.security_events.items@,
                |e: SecurityEvent| e.principal == Some(principal),
            ).len(),
            forall|i: int| 0 <= i < r@.len()
                ==> *r@[i] == filtered(
                    self.security_events.items@,
                    |e: SecurityEvent| e.principal == Some(principal),
                )[i],
    {
        let ghost p = |e: SecurityEvent| e.principal == Some(principal);
        let items = &self.security_events.items;
        let mut r: Vec<&SecurityEvent> = Vec::new();
        let mut i: usize = 0;
        proof {
            assert(items@.subrange(0, 0) =~= Seq::<SecurityEvent>::empty());
        }
        while i < items.len()
            invariant
                items@ == self.security_events.items@,
                i <= items@.len(),
                r@.len() == filtered(items@.subrange(0, i as int), p).len(),
                forall|j: int| 0 <= j < r@.len()
                    ==> *r@[j] == filtered(items@.subrange(0, i as int), p)[j],
                p == (|e: SecurityEvent| e.principal == Some(principal)),
            decreases items@.len() - i,
        {
            let matches_principal = match items[i].principal {
                Some(q) => q == principal,
                None => false,
            };
            if matches_principal {
                r.push(&items[i]);
            }
            i = i + 1;
            proof {
                let prefix = items@.subrange(0, i as int);
                assert(prefix.drop_last() =~= items@.subrange(0, i - 1));
                assert(prefix.last() == items@[i - 1]);
            }
        }
        proof {
            assert(items@.subrange(0, items@.len() as int) =~= items@);
        }
        r
    }

    /// How many events were recorded in the 24 hours before `now` (counted
    /// up to the counter's range).
    pub fn get_security_events_count_today(&self, now: u64) -> (r: u32)
        ensures
            r as nat == spec_min_nat(
                filtered(
                    self.security_events.items@,
                    |e: SecurityEvent| e.timestamp > day_start(now),
                ).len() as nat,
                u32::MAX as nat,
            ),
    {
        let ghost p = |e: SecurityEvent| e.timestamp > day_start(now);
        let threshold: u64 = if now >= 86_400_000_000_000 { now - 86_400_000_000_000 } else { 0 };
        let items = &self.security_events.items;
        let mut count: u32 = 0;
        let mut i: usize = 0;
        proof {
            assert(items@.subrange(0, 0) =~= Seq::<SecurityEvent>::empty());
        }
        while i < items.len()
            invariant
                items@ == self.security_events.items@,
                i <= items@.len(),
                threshold == day_start(now),
                count as nat == spec_min_nat(
                    filtered(items@.subrange(0, i as int), p).len() as nat,
                    u32::MAX as nat,
                ),
                p == (|e: SecurityEvent| e.timestamp > day_start(now)),
            decreases items@.len() - i,
        {
            if items[i].timestamp > threshold {
                if count < u32::MAX {
                    count = count + 1;
                }
            }
            i = i + 1;
            proof {
                let prefix = items@.subrange(0, i as int);
                assert(prefix.drop_last() =~= items@.subrange(0, i - 1));
                assert(prefix.last() == items@[i - 1]);
            }
        }
        proof {
            assert(items@.subrange(0, items@.len() as int) =~= items@);
        }
        count
    }

    // -- monitoring tasks --------------------------------------------------

    /// Enqueues a monitoring task (replacing any task with the same
    /// identifier).
    pub fn store_monitoring_task(&mut self, task: MonitoringTask)
        requires
            old(self).wf(),
        ensures
            final(self).wf(),
            final(self).monitoring_tasks.lookup(task.task_id@) == Some(task),
            forall|k: Seq<char>| k != task.task_id@
                ==> #[trigger] final(self).monitoring_tasks.lookup(k)
                    == old(self).monitoring_tasks.lookup(k),
            old(self).monitoring_tasks.items@.len() <= final(self).monitoring_tasks.items@.len()
                <= old(self).monitoring_tasks.items@.len() + 1,
            *final(self) == (StorageManager {
                monitoring_tasks: final(self).monitoring_tasks,
                ..*old(self)
            }),
    {
        self.monitoring_tasks.upsert(task);
    }

    /// Rewrites a task in place (same contract as storing it).
    pub fn update_monitoring_task(&mut self, task: MonitoringTask)
        requires
            old(self).wf(),
        ensures
            final(self).wf(),
            final(self).monitoring_tasks.lookup(task.task_id@) == Some(task),
            forall|k: Seq<char>| k != task.task_id@
                ==> #[trigger] final(self).monitoring_tasks.lookup(k)
                    == old(self).monitoring_tasks.lookup(k),
            old(self).monitoring_tasks.items@.len() <= final(self).monitoring_tasks.items@.len()
                <= old(self).monitoring_tasks.items@.len() + 1,
            *final(self) == (StorageManager {
                monitoring_tasks: final(self).monitoring_tasks,
                ..*old(self)
            }),
    {
        self.monitoring_tasks.upsert(task);
    }

    /// Removes a task permanently (on success or terminal failure).
    pub fn remove_monitoring_task(&mut self, task_id: &str)
        requires
            old(self).wf(),
        ensures
            final(self).wf(),
            final(self).monitoring_tasks.lookup(task_id@) is None,
            forall|k: Seq<char>| k != task_id@
                ==> #[trigger] final(self).monitoring_tasks.lookup(k)
                    == old(self).monitoring_tasks.lookup(k),
            final(self).monitoring_tasks.items@.len() <= old(self).monitoring_tasks.items@.len(),
            *final(self) == (StorageManager {
                monitoring_tasks: final(self).monitoring_tasks,
                ..*old(self)
            }),
    {
        let _ = self.monitoring_tasks.remove_key(task_id);
    }

    /// Borrows every task due at `current_time`, in storage order.
    pub fn get_pending_monitoring_tasks(&self, current_time: u64) -> (r: Vec<&MonitoringTask>)
        ensures
            r@.len() == filtered(
                self.monitoring_tasks.items@,
                |t: MonitoringTask| t.scheduled_at <= current_time,
            ).len(),
            forall|i: int| 0 <= i < r@.len()
                ==> *r@[i] == filtered(
                    self.monitoring_tasks.items@,
                    |t: MonitoringTask| t.scheduled_at <= current_time,
                )[i],
    {
        let ghost p = |t: MonitoringTask| t.scheduled_at <= current_time;
        let items = &self.monitoring_tasks.items;
        let mut r: Vec<&MonitoringTask> = Vec::new();
        let mut i: usize = 0;
        proof {
            assert(items@.subrange(0, 0) =~= Seq::<MonitoringTask>::empty());
        }
        while i < items.len()
            invariant
                items@ == self.monitoring_tasks.items@,
                i <= items@.len(),
                r@.len() == filtered(items@.subrange(0, i as int), p).len(),
                forall|j: int| 0 <= j < r@.len()
                    ==> *r@[j] == filtered(items@.subrange(0, i as int), p)[j],
                p == (|t: MonitoringTask| t.scheduled_at <= current_time),
            decreases items@.len() - i,
        {
            if items[i].scheduled_at <= current_time {
                r.push(&items[i]);
            }
            i = i + 1;
            proof {
                let prefix = items@.subrange(0, i as int);
                assert(prefix.drop_last() =~= items@.subrange(0, i - 1));
                assert(prefix.last() == items@[i - 1]);
            }
        }
        proof {
            assert(items@.subrange(0, items@.len() as int) =~= items@);
        }
        r
    }

    /// How many stored tasks have failed at least once (counted up to the
    /// counter's range).
    pub fn get_failed_monitoring_tasks_count(&self) -> (r: u32)
        ensures
            r as nat == spec_min_nat(
                filtered(self.monitoring_tasks.items@, |t: MonitoringTask| t.retry_count > 0).len()
                    as nat,
                u32::MAX as nat,
            ),
    {
        let ghost p = |t: MonitoringTask| t.retry_count > 0;
        let items = &self.monitoring_tasks.items;
        let mut count: u32 = 0;
        let mut i: usize = 0;
        proof {
            assert(items@.subrange(0, 0) =~= Seq::<MonitoringTask>::empty());
        }
        while i < items.len()
            invariant
                items@ == self.monitoring_tasks.items@,
                i <= items@.len(),
                count as nat == spec_min_nat(
                    filtered(items@.subrange(0, i as int), p).len() as nat,
                    u32::MAX as nat,
                ),
                p == (|t: MonitoringTask| t.retry_count > 0),
            decreases items@.len() - i,
        {
            if items[i].retry_count > 0 {
                if count < u32::MAX {
                    count = count + 1;
                }
            }
            i = i + 1;
            proof {
                let prefix = items@.subrange(0, i as int);
                assert(prefix.drop_last() =~= items@.subrange(0, i - 1));
                assert(prefix.last() == items@[i - 1]);
            }
        }
        proof {
            assert(items@.subrange(0, items@.len() as int) =~= items@);
        }
        count
    }

    // -- community alerts --------------------------------------------------

    /// Stores an alert under its identifier.
    pub fn store_community_alert(&mut self, alert: CommunityAlert)
        requires
            old(self).wf(),
        ensures
            final(self).wf(),
            final(self).community_alerts.lookup(alert.alert_id@) == Some(alert),
            forall|k: Seq<char>| k != alert.alert_id@
                ==> #[trigger] final(self).community_alerts.lookup(k)
                    == old(self).community_alerts.lookup(k),
            old(self).community_alerts.items@.len() <= final(self).community_alerts.items@.len()
                <= old(self).community_alerts.items@.len() + 1,
            *final(self) == (StorageManager {
                community_alerts: final(self).community_alerts,
                ..*old(self)
            }),
    {
        self.community_alerts.upsert(alert);
    }

    /// Borrows the alerts, optionally filtered by their acknowledged flag,
    /// in storage order.
    pub fn get_community_alerts(&self, acknowledged: Option<bool>) -> (r: Vec<&CommunityAlert>)
        ensures
            r@.len() == filtered(
                self.community_alerts.items@,
                |a: CommunityAlert| alert_filter(a, acknowledged),
            ).len(),
            forall|i: int| 0 <= i < r@.len()
                ==> *r@[i] == filtered(
                    self.community_alerts.items@,
                    |a: CommunityAlert| alert_filter(a, acknowledged),
                )[i],
    {
        let ghost p = |a: CommunityAlert| alert_filter(a, acknowledged);
        let items = &self.community_alerts.items;
        let mut r: Vec<&CommunityAlert> = Vec::new();
        let mut i: usize = 0;
        proof {
            assert(items@.subrange(0, 0) =~= Seq::<CommunityAlert>::empty());
        }
        while i < items.len()
            invariant
                items@ == self.community_alerts.items@,
                i <= items@.len(),
                r@.len() == filtered(items@.subrange(0, i as int), p).len(),
                forall|j: int| 0 <= j < r@.len()
                    ==> *r@[j] == filtered(items@.subrange(0, i as int), p)[j],
                p == (|a: CommunityAlert| alert_filter(a, acknowledged)),
            decreases items@.len() - i,
        {
            let keep = match acknowledged {
                Some(a) => items[i].acknowledged == a,
                None => true,
            };
            if keep {
                r.push(&items[i]);
            }
            i = i + 1;
            proof {
                let prefix = items@.subrange(0, i as int);
                assert(prefix.drop_last() =~= items@.subrange(0, i - 1));
                assert(prefix.last() == items@[i - 1]);
            }
        }
        proof {
            assert(items@.subrange(0, items@.len() as int) =~= items@);
        }
        r
    }

    /// Sets an alert's acknowledged flag; fails when the alert is unknown.
    pub fn acknowledge_community_alert(&mut self, alert_id: &str) -> (r: RegistryResult<()>)
        requires
            old(self).wf(),
        ensures
            final(self).wf(),
            match r {
                Ok(()) => {
                    &&& old(self).community_alerts.lookup(alert_id@) is Some
                    &&& final(self).community_alerts.lookup(alert_id@) matches Some(a2)
                        && a2 == (CommunityAlert {
                            acknowledged: true,
                            ..old(self).community_alerts.lookup(alert_id@).unwrap()
                        })
                },
                Err(e) => {
                    &&& e == RegistryError::AlertNotFound
                    &&& old(self).community_alerts.lookup(alert_id@) is None
                    &&& *final(self) == *old(self)
                },
            },
            forall|k: Seq<char>| k != alert_id@
                ==> #[trigger] final(self).community_alerts.lookup(k)
                    == old(self).community_alerts.lookup(k),
            *final(self) == (StorageManager {
                community_alerts: final(self).community_alerts,
                ..*old(self)
            }),
    {
        match self.community_alerts.index_of(alert_id) {
            None => Err(RegistryError::AlertNotFound),
            Some(i) => {
                proof {
                    self.community_alerts.lemma_lookup_at(i as int);
                }
                let mut a = self.community_alerts.remove_at(i);
                a.acknowledged = true;
                self.community_alerts.insert_at(i, a);
                Ok(())
            },
        }
    }

    // -- proof monitoring records ------------------------------------------

    /// Stores a proof-monitoring record under its proof identifier.
    pub fn update_proof_monitoring(&mut self, monitoring: ProofMonitoring)
        requires
            old(self).wf(),
        ensures
            final(self).wf(),
            final(self).proof_monitoring.lookup(monitoring.proof_id@) == Some(monitoring),
            forall|k: Seq<char>| k != monitoring.proof_id@
                ==> #[trigger] final(self).proof_monitoring.lookup(k)
                    == old(self).proof_monitoring.lookup(k),
            *final(self) == (StorageManager {
                proof_monitoring: final(self).proof_monitoring,
                ..*old(self)
            }),
    {
        self.proof_monitoring.upsert(monitoring);
    }

    pub fn get_proof_monitoring(&self, proof_id: &str) -> (r: Option<&ProofMonitoring>)
        requires
            self.wf(),
        ensures
            match r {
                Some(m) => self.proof_monitoring.lookup(proof_id@) == Some(*m),
                None => self.proof_monitoring.lookup(proof_id@) is None,
            },
    {
        self.proof_monitoring.get(proof_id)
    }

    /// Appends a community report to a proof's monitoring record, creating
    /// the record when none exists yet.
    pub fn add_community_report(
        &mut self,
        company_id: &str,
        proof_id: &str,
        report: CommunityReport,
        now: u64,
    )
        requires
            old(self).wf(),
        ensures
            final(self).wf(),
            final(self).proof_monitoring.lookup(proof_id@) matches Some(m2) && {
                &&& m2.proof_id@ == proof_id@
                &&& match old(self).proof_monitoring.lookup(proof_id@) {
                    Some(m) => {
                        &&& m2.community_reports@ == m.community_reports@.push(report)
                        &&& m2.check_results@ == m.check_results@
                        &&& m2.company_id@ == m.company_id@
                        &&& m2.last_checked == m.last_checked
                    },
                    None => {
                        &&& m2.community_reports@ == seq![report]
                        &&& m2.check_results@.len() == 0
                        &&& m2.company_id@ == company_id@
                        &&& m2.last_checked == now
                    },
                }
            },
            forall|k: Seq<char>| k != proof_id@
                ==> #[trigger] final(self).proof_monitoring.lookup(k)
                    == old(self).proof_monitoring.lookup(k),
            *final(self) == (StorageManager {
                proof_monitoring: final(self).proof_monitoring,
                ..*old(self)
            }),
    {
        match self.proof_monitoring.index_of(proof_id) {
            Some(i) => {
                proof {
                    self.proof_monitoring.lemma_lookup_at(i as int);
                }
                let mut m = self.proof_monitoring.remove_at(i);
                m.community_reports.push(report);
                self.proof_monitoring.insert_at(i, m);
            },
            None => {
                let fresh = ProofMonitoring {
                    proof_id: String::from_str(proof_id),
                    company_id: String::from_str(company_id),
                    last_checked: now,
                    check_results: Vec::new(),
                    community_reports: vec![report],
                };
                let n = self.proof_monitoring.items.len();
                proof {
                    assert(fresh.key() == proof_id@);
                }
                self.proof_monitoring.insert_at(n, fresh);
            },
        }
    }

    /// How many community reports stand against a proof.
    pub fn get_community_report_count(&self, company_id: &str, proof_id: &str) -> (r: usize)
        requires
            self.wf(),
        ensures
            r == match self.proof_monitoring.lookup(proof_id@) {
                Some(m) => m.community_reports@.len(),
                None => 0,
            },
    {
        let _ = company_id;
        match self.proof_monitoring.get(proof_id) {
            Some(m) => m.community_reports.len(),
            None => 0,
        }
    }

    // -- proof status updates ----------------------------------------------

    /// Moves the status of the proof matching `target`'s type and
    /// verification time.  The first matching proof is updated; everything
    /// else about the company is untouched.
    pub fn update_proof_status(
        &mut self,
        company_id: &str,
        target: &VerificationProof,
        new_status: ProofStatus,
    ) -> (r: RegistryResult<()>)
        requires
            old(self).wf(),
        ensures
            final(self).wf(),
            match r {
                Ok(()) => {
                    &&& old(self).company_of(company_id@) matches Some(c)
                    &&& proof_status_updated(
                        old(self).company_of(company_id@).unwrap(),
                        final(self).company_of(company_id@),
                        ProofSelector::ByTypeTime(target.verification_type, target.verified_at),
                        new_status,
                    )
                },
                Err(RegistryError::CompanyNotFound) => {
                    &&& old(self).company_of(company_id@) is None
                    &&& *final(self) == *old(self)
                },
                Err(RegistryError::ProofNotFound) => {
                    &&& old(self).company_of(company_id@) matches Some(c)
                        && forall|j: int| 0 <= j < c.web3_identity.verification_proofs@.len()
                            ==> !proof_matches_type_time(
                                #[trigger] c.web3_identity.verification_proofs@[j],
                                *target,
                            )
                    &&& *final(self) == *old(self)
                },
                Err(_) => false,
            },
            forall|k: Seq<char>| k != company_id@
                ==> #[trigger] final(self).company_of(k) == old(self).company_of(k),
            *final(self) == (StorageManager { companies: final(self).companies, ..*old(self) }),
    {
        match self.companies.index_of(company_id) {
            None => Err(RegistryError::CompanyNotFound),
            Some(i) => {
                proof {
                    self.companies.lemma_lookup_at(i as int);
                }
                let found = find_proof_index_type_time(
                    &self.companies.items[i].web3_identity.verification_proofs,
                    target,
                );
                match found {
                    Some(j) => {
                        let ghost c_old = self.companies.items@[i as int];
                        let mut c = self.companies.remove_at(i);
                        let mut p = c.web3_identity.verification_proofs.remove(j);
                        p.status = new_status;
                        c.web3_identity.verification_proofs.insert(j, p);
                        proof {
                            assert(c.web3_identity.verification_proofs@
                                =~= c_old.web3_identity.verification_proofs@.update(
                                    j as int,
                                    VerificationProof {
                                        status: new_status,
                                        ..c_old.web3_identity.verification_proofs@[j as int]
                                    },
                                ));
                            assert(c.web3_identity == (crate::types::Web3Identity {
                                verification_proofs: c.web3_identity.verification_proofs,
                                ..c_old.web3_identity
                            }));
                        }
                        self.companies.insert_at(i, c);
                        Ok(())
                    },
                    None => Err(RegistryError::ProofNotFound),
                }
            },
        }
    }

    /// Moves the status of the proof whose generated identifier is
    /// `proof_id`.
    pub fn update_proof_status_by_id(
        &mut self,
        company_id: &str,
        proof_id: &str,
        new_status: ProofStatus,
    ) -> (r: RegistryResult<()>)
        requires
            old(self).wf(),
        ensures
            final(self).wf(),
            match r {
                Ok(()) => {
                    &&& old(self).company_of(company_id@) matches Some(c)
                    &&& proof_status_updated(
                        old(self).company_of(company_id@).unwrap(),
                        final(self).company_of(company_id@),
                        ProofSelector::ById(proof_id@),
                        new_status,
                    )
                },
                Err(RegistryError::CompanyNotFound) => {
                    &&& old(self).company_of(company_id@) is None
                    &&& *final(self) == *old(self)
                },
                Err(RegistryError::ProofNotFound) => {
                    &&& old(self).company_of(company_id@) matches Some(c)
                        && forall|j: int| 0 <= j < c.web3_identity.verification_proofs@.len()
                            ==> proof_id_seq(#[trigger] c.web3_identity.verification_proofs@[j])
                                != proof_id@
                    &&& *final(self) == *old(self)
                },
                Err(_) => false,
            },
            forall|k: Seq<char>| k != company_id@
                ==> #[trigger] final(self).company_of(k) == old(self).company_of(k),
            *final(self) == (StorageManager { companies: final(self).companies, ..*old(self) }),
    {
        match self.companies.index_of(company_id) {
            None => Err(RegistryError::CompanyNotFound),
            Some(i) => {
                proof {
                    self.companies.lemma_lookup_at(i as int);
                }
                let found = find_proof_index_by_id(
                    &self.companies.items[i].web3_identity.verification_proofs,
                    proof_id,
                );
                match found {
                    Some(j) => {
                        let ghost c_old = self.companies.items@[i as int];
                        let mut c = self.companies.remove_at(i);
                        let mut p = c.web3_identity.verification_proofs.remove(j);
                        p.status = new_status;
                        c.web3_identity.verification_proofs.insert(j, p);
                        proof {
                            assert(c.web3_identity.verification_proofs@
                                =~= c_old.web3_identity.verification_proofs@.update(
                                    j as int,
                                    VerificationProof {
                                        status: new_status,
                                        ..c_old.web3_identity.verification_proofs@[j as int]
                                    },
                                ));
                            assert(c.web3_identity == (crate::types::Web3Identity {
                                verification_proofs: c.web3_identity.verification_proofs,
                                ..c_old.web3_identity
                            }));
                        }
                        self.companies.insert_at(i, c);
                        Ok(())
                    },
                    None => Err(RegistryError::ProofNotFound),
                }
            },
        }
    }

    // -- monitoring state --------------------------------------------------

    pub fn get_last_full_scan_time(&self) -> (r: u64)
        ensures
            r == self.last_full_scan,
    {
        self.last_full_scan
    }

    pub fn update_last_full_scan_time(&mut self, now: u64)
        requires
            old(self).wf(),
        ensures
            final(self).wf(),
            *final(self) == (StorageManager { last_full_scan: now, ..*old(self) }),
    {
        self.last_full_scan = now;
    }
}

/// The first proof matching `target`'s type and verification time.
fn find_proof_index_type_time(proofs: &Vec<VerificationProof>, target: &VerificationProof) -> (r:
    Option<usize>)
    ensures
        match r {
            Some(j) => j < proofs@.len() && proof_matches_type_time(proofs@[j as int], *target)
                && forall|q: int| 0 <= q < j
                    ==> !proof_matches_type_time(#[trigger] proofs@[q], *target),
            None => forall|q: int| 0 <= q < proofs@.len()
                ==> !proof_matches_type_time(#[trigger] proofs@[q], *target),
        },
{
    let mut j: usize = 0;
    while j < proofs.len()
        invariant
            j <= proofs@.len(),
            forall|q: int| 0 <= q < j ==> !proof_matches_type_time(#[trigger] proofs@[q], *target),
        decreases proofs@.len() - j,
    {
        let p = &proofs[j];
        if p.verification_type == target.verification_type && p.verified_at == target.verified_at {
            return Some(j);
        }
        j = j + 1;
    }
    None
}

/// The first proof whose generated identifier is `proof_id`.
fn find_proof_index_by_id(proofs: &Vec<VerificationProof>, proof_id: &str) -> (r: Option<usize>)
    ensures
        match r {
            Some(j) => j < proofs@.len() && proof_id_seq(proofs@[j as int]) == proof_id@
                && forall|q: int| 0 <= q < j
                    ==> proof_id_seq(#[trigger] proofs@[q]) != proof_id@,
            None => forall|q: int| 0 <= q < proofs@.len()
                ==> proof_id_seq(#[trigger] proofs@[q]) != proof_id@,
        },
{
    let mut j: usize = 0;
    while j < proofs.len()
        invariant
            j <= proofs@.len(),
            forall|q: int| 0 <= q < j ==> proof_id_seq(#[trigger] proofs@[q]) != proof_id@,
        decreases proofs@.len() - j,
    {
        let generated = proof_id_string(&proofs[j]);
        if str_eq(generated.as_str(), proof_id) {
            return Some(j);
        }
        j = j + 1;
    }
    None
}

/// The smaller of two naturals.
pub open spec fn spec_min_nat(a: nat, b: nat) -> nat {
    if a < b { a } else { b }
}

/// The start of the 24-hour window ending at `now`.
pub open spec fn day_start(now: u64) -> u64 {
    if now >= 86_400_000_000_000 {
        (now - 86_400_000_000_000) as u64
    } else {
        0
    }
}

/// The alert-listing filter: an acknowledged-flag constraint, or none.
pub open spec fn alert_filter(a: CommunityAlert, acknowledged: Option<bool>) -> bool {
    match acknowledged {
        Some(f) => a.acknowledged == f,
        None => true,
    }
}

/// Two proofs denote the same record when their type and verification time
/// agree.
pub open spec fn proof_matches_type_time(p: VerificationProof, target: VerificationProof) -> bool {
    p.verification_type == target.verification_type && p.verified_at == target.verified_at
}

/// How the proof to update is selected.
pub open spec fn proof_selected(sel: ProofSelector, p: VerificationProof) -> bool {
    match sel {
        ProofSelector::ByTypeTime(vt, at) => p.verification_type == vt && p.verified_at == at,
        ProofSelector::ById(pid) => proof_id_seq(p) == pid,
    }
}

/// Which proof a status update addresses: by type and verification time, or
/// by generated identifier.
pub ghost enum ProofSelector {
    ByTypeTime(VerificationType, u64),
    ById(Seq<char>),
}

/// The company after a proof-status transition: the first proof matched by
/// `sel` has its status moved to `new_status`; every other field of the
/// company, and every other proof, is unchanged.
pub open spec fn proof_status_updated(
    c: Company,
    after: Option<Company>,
    sel: ProofSelector,
    new_status: ProofStatus,
) -> bool {
    match after {
        Some(c2) => exists|j: int|
            {
                &&& 0 <= j < c.web3_identity.verification_proofs@.len()
                &&& proof_selected(sel, #[trigger] c.web3_identity.verification_proofs@[j])
                &&& forall|q: int| 0 <= q < j
                    ==> !proof_selected(sel, #[trigger] c.web3_identity.verification_proofs@[q])
                &&& c2.web3_identity.verification_proofs@
                    == c.web3_identity.verification_proofs@.update(
                    j,
                    VerificationProof {
                        status: new_status,
                        ..c.web3_identity.verification_proofs@[j]
                    },
                )
                &&& c2.web3_identity == (crate::types::Web3Identity {
                    verification_proofs: c2.web3_identity.verification_proofs,
                    ..c.web3_identity
                })
                &&& c2 == (Company { web3_identity: c2.web3_identity, ..c })
            },
        None => false,
    }
}

/// The lowercase name of a verification type, as used in proof identifiers.
pub open spec fn verification_type_name_seq(t: VerificationType) -> Seq<char> {
    match t {
        VerificationType::GitHub => "github"@,
        VerificationType::Domain => "domain"@,
        VerificationType::Twitter => "twitter"@,
        VerificationType::Discord => "discord"@,
        VerificationType::Telegram => "telegram"@,
    }
}

/// Executable verification-type name.
pub fn verification_type_name(t: VerificationType) -> (r: &'static str)
    ensures
        r@ == verification_type_name_seq(t),
{
    match t {
        VerificationType::GitHub => "github",
        VerificationType::Domain => "domain",
        VerificationType::Twitter => "twitter",
        VerificationType::Discord => "discord",
        VerificationType::Telegram => "telegram",
    }
}

/// A proof's stable identifier: its type and its verification time.
pub open spec fn proof_id_seq(p: VerificationProof) -> Seq<char> {
    verification_type_name_seq(p.verification_type) + "_"@ + decimal_seq(p.verified_at as nat)
}

/// Renders a proof's stable identifier.
pub fn proof_id_string(p: &VerificationProof) -> (r: String)
    ensures
        r@ == proof_id_seq(*p),
{
    String::from_str(verification_type_name(p.verification_type))
        .concat("_")
        .concat(decimal_string(p.verified_at).as_str())
}

/// The lowercase name of a chain, as used in challenge keys.
pub open spec fn chain_name_seq(ct: ChainType) -> Seq<char> {
    match ct {
        ChainType::Ethereum => "ethereum"@,
        ChainType::Bitcoin => "bitcoin"@,
        ChainType::ICP => "icp"@,
        ChainType::Polygon => "polygon"@,
        ChainType::Solana => "solana"@,
        ChainType::Sui => "sui"@,
        ChainType::TON => "ton"@,
    }
}

/// Executable chain name.
pub fn chain_name(ct: ChainType) -> (r: &'static str)
    ensures
        r@ == chain_name_seq(ct),
{
    match ct {
        ChainType::Ethereum => "ethereum",
        ChainType::Bitcoin => "bitcoin",
        ChainType::ICP => "icp",
        ChainType::Polygon => "polygon",
        ChainType::Solana => "solana",
        ChainType::Sui => "sui",
        ChainType::TON => "ton",
    }
}

} // verus!
