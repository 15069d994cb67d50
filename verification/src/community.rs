//! Community validation: endorsements, testimonials, vouches, reputation
//! staking, the reputation formula with its status bands, and the fraud
//! heuristics that gate stake increases.

use vstd::prelude::*;
use crate::monitoring::{MonitoringSystem, clamp_u32};
use crate::storage::{StorageManager, filtered};
use crate::text::{is_blank, occurs_in, occurs_in_ci, str_contains, str_contains_ci, str_eq,
    str_is_blank};
use crate::types::{
    Company, CommunityValidation, CommunityValidationStats, CompanyStatus, Endorsement, Principal,
    RegistryError, RegistryResult, ReputationLeaderboard, SecurityEventType, SecuritySeverity,
    Testimonial, Vouch, sat_add,
};

verus! {

/// Community validation business logic.
pub struct CommunityValidationManager;

// ---------------------------------------------------------------------------
// The reputation formula
// ---------------------------------------------------------------------------

/// The ceiling of the base-10 logarithm over the 64-bit range, written as
/// its digit thresholds.
pub open spec fn ceil_log10(n: int) -> int {
    if n <= 1 { 0 }
    else if n <= 10 { 1 }
    else if n <= 100 { 2 }
    else if n <= 1_000 { 3 }
    else if n <= 10_000 { 4 }
    else if n <= 100_000 { 5 }
    else if n <= 1_000_000 { 6 }
    else if n <= 10_000_000 { 7 }
    else if n <= 100_000_000 { 8 }
    else if n <= 1_000_000_000 { 9 }
    else if n <= 10_000_000_000 { 10 }
    else if n <= 100_000_000_000 { 11 }
    else if n <= 1_000_000_000_000 { 12 }
    else if n <= 10_000_000_000_000 { 13 }
    else if n <= 100_000_000_000_000 { 14 }
    else if n <= 1_000_000_000_000_000 { 15 }
    else if n <= 10_000_000_000_000_000 { 16 }
    else if n <= 100_000_000_000_000_000 { 17 }
    else if n <= 1_000_000_000_000_000_000 { 18 }
    else if n <= 10_000_000_000_000_000_000 { 19 }
    else { 20 }
}

/// The staking bonus: twice the ceiling log of the staked amount, when
/// anything is staked.
pub open spec fn staking_bonus(staked: u64) -> int {
    if staked > 0 {
        2 * ceil_log10(staked as int)
    } else {
        0
    }
}

/// Points from testimonials: 5 per verified, 2 per unverified.
pub open spec fn testimonial_points(ts: Seq<Testimonial>) -> int
    decreases ts.len(),
{
    if ts.len() == 0 {
        0
    } else {
        testimonial_points(ts.drop_last()) + (if ts.last().verified { 5int } else { 2int })
    }
}

/// The summed weight of the community vouches.
pub open spec fn vouch_weight_total(vs: Seq<Vouch>) -> int
    decreases vs.len(),
{
    if vs.len() == 0 {
        0
    } else {
        vouch_weight_total(vs.drop_last()) + vs.last().weight as int
    }
}

/// The reputation score, unclamped: a quarter of the verification score,
/// 10 per endorsement, testimonial points, three times the vouch weight,
/// and the staking bonus.
pub open spec fn reputation_score_spec(c: Company) -> int {
    c.verification_score as int / 4
        + 10 * c.community_validation.peer_endorsements@.len() as int
        + testimonial_points(c.community_validation.employee_testimonials@)
        + 3 * vouch_weight_total(c.community_validation.community_vouches@)
        + staking_bonus(c.community_validation.reputation_staked)
}

/// The status band a reputation score puts a company in.
pub open spec fn status_for_reputation(score: int) -> CompanyStatus {
    if score <= 20 {
        CompanyStatus::Pending
    } else if score <= 50 {
        CompanyStatus::Verified
    } else {
        CompanyStatus::Trusted
    }
}

/// The weight band a voucher's total activity puts it in.
pub open spec fn voucher_weight_for(n: int) -> int {
    if n <= 2 { 1 }
    else if n <= 10 { 2 }
    else if n <= 25 { 3 }
    else { 5 }
}

/// Vouches by one principal within a single company.
pub open spec fn vouches_by_in(vs: Seq<Vouch>, p: Principal) -> int {
    filtered(vs, |v: Vouch| v.voucher_principal == p).len() as int
}

/// Vouches by one principal across all companies.
pub open spec fn total_vouches_by(cs: Seq<Company>, p: Principal) -> int
    decreases cs.len(),
{
    if cs.len() == 0 {
        0
    } else {
        total_vouches_by(cs.drop_last(), p)
            + vouches_by_in(cs.last().community_validation.community_vouches@, p)
    }
}

/// Clamped 32-bit addition.
fn add_clamped(a: u32, b: u32) -> (r: u32)
    ensures
        r as int == clamp_u32(a + b),
{
    if a as u64 + b as u64 > u32::MAX as u64 {
        u32::MAX
    } else {
        a + b
    }
}

/// Executable staking bonus.
fn staking_bonus_of(staked: u64) -> (r: u32)
    ensures
        r as int == staking_bonus(staked),
{
    if staked == 0 {
        return 0;
    }
    let digits: u32 = if staked <= 1 { 0 }
    else if staked <= 10 { 1 }
    else if staked <= 100 { 2 }
    else if staked <= 1_000 { 3 }
    else if staked <= 10_000 { 4 }
    else if staked <= 100_000 { 5 }
    else if staked <= 1_000_000 { 6 }
    else if staked <= 10_000_000 { 7 }
    else if staked <= 100_000_000 { 8 }
    else if staked <= 1_000_000_000 { 9 }
    else if staked <= 10_000_000_000 { 10 }
    else if staked <= 100_000_000_000 { 11 }
    else if staked <= 1_000_000_000_000 { 12 }
    else if staked <= 10_000_000_000_000 { 13 }
    else if staked <= 100_000_000_000_000 { 14 }
    else if staked <= 1_000_000_000_000_000 { 15 }
    else if staked <= 10_000_000_000_000_000 { 16 }
    else if staked <= 100_000_000_000_000_000 { 17 }
    else if staked <= 1_000_000_000_000_000_000 { 18 }
    else if staked <= 10_000_000_000_000_000_000 { 19 }
    else { 20 };
    2 * digits
}

/// Endorsement points, clamped: 10 per endorsement.
fn endorsement_points_of(es: &Vec<Endorsement>) -> (r: u32)
    ensures
        r as int == clamp_u32(10 * es@.len() as int),
{
    let mut acc: u32 = 0;
    let mut i: usize = 0;
    while i < es.len()
        invariant
            i <= es@.len(),
            acc as int == clamp_u32(10 * i as int),
        decreases es@.len() - i,
    {
        acc = add_clamped(acc, 10);
        i = i + 1;
    }
    acc
}

/// Testimonial points, clamped.
fn testimonial_points_of(ts: &Vec<Testimonial>) -> (r: u32)
    ensures
        r as int == clamp_u32(testimonial_points(ts@)),
{
    let mut acc: u32 = 0;
    let mut i: usize = 0;
    proof {
        assert(ts@.subrange(0, 0) =~= Seq::<Testimonial>::empty());
    }
    while i < ts.len()
        invariant
            i <= ts@.len(),
            acc as int == clamp_u32(testimonial_points(ts@.subrange(0, i as int))),
        decreases ts@.len() - i,
    {
        let add: u32 = if ts[i].verified { 5 } else { 2 };
        acc = add_clamped(acc, add);
        i = i + 1;
        proof {
            let prefix = ts@.subrange(0, i as int);
            assert(prefix.drop_last() =~= ts@.subrange(0, i - 1));
            assert(prefix.last() == ts@[i - 1]);
        }
    }
    proof {
        assert(ts@.subrange(0, ts@.len() as int) =~= ts@);
    }
    acc
}

/// Vouch points, clamped: three times each vouch's weight.
fn vouch_points_of(vs: &Vec<Vouch>) -> (r: u32)
    ensures
        r as int == clamp_u32(3 * vouch_weight_total(vs@)),
{
    let mut acc: u32 = 0;
    let mut i: usize = 0;
    proof {
        assert(vs@.subrange(0, 0) =~= Seq::<Vouch>::empty());
    }
    while i < vs.len()
        invariant
            i <= vs@.len(),
            acc as int == clamp_u32(3 * vouch_weight_total(vs@.subrange(0, i as int))),
        decreases vs@.len() - i,
    {
        let w = vs[i].weight;
        let tripled: u32 = if w > u32::MAX / 3 {
            u32::MAX
        } else {
            3 * w
        };
        proof {
            assert(tripled as int == clamp_u32(3 * w as int));
        }
        acc = add_clamped(acc, tripled);
        i = i + 1;
        proof {
            let prefix = vs@.subrange(0, i as int);
            assert(prefix.drop_last() =~= vs@.subrange(0, i - 1));
            assert(prefix.last() == vs@[i - 1]);
            assert(vouch_weight_total(prefix)
                == vouch_weight_total(vs@.subrange(0, i - 1)) + w as int);
        }
    }
    proof {
        assert(vs@.subrange(0, vs@.len() as int) =~= vs@);
    }
    acc
}

impl CommunityValidationManager {
    /// Recomputes a company's reputation score (clamped to the counter
    /// range) and re-derives its status band from the new score.  Nothing
    /// else about the company changes.
    pub fn update_reputation_score(company: &mut Company)
        ensures
            final(company).community_validation.reputation_score as int == clamp_u32(
                reputation_score_spec(*old(company)),
            ),
            final(company).status == status_for_reputation(
                final(company).community_validation.reputation_score as int,
            ),
            final(company).community_validation == (CommunityValidation {
                reputation_score: final(company).community_validation.reputation_score,
                ..old(company).community_validation
            }),
            *final(company) == (Company {
                community_validation: final(company).community_validation,
                status: final(company).status,
                ..*old(company)
            }),
            reputation_score_spec(*final(company)) == reputation_score_spec(*old(company)),
    {
        let base: u32 = company.verification_score / 4;
        let e = endorsement_points_of(&company.community_validation.peer_endorsements);
        let t = testimonial_points_of(&company.community_validation.employee_testimonials);
        let v = vouch_points_of(&company.community_validation.community_vouches);
        let b = staking_bonus_of(company.community_validation.reputation_staked);
        let mut score: u32 = add_clamped(base, e);
        score = add_clamped(score, t);
        score = add_clamped(score, v);
        score = add_clamped(score, b);
        company.community_validation.reputation_score = score;
        company.status = if score <= 20 {
            CompanyStatus::Pending
        } else if score <= 50 {
            CompanyStatus::Verified
        } else {
            CompanyStatus::Trusted
        };
    }

    /// A voucher's weight, from its total vouch activity across the whole
    /// registry: bands of 1, 2, 3 and 5.
    pub fn calculate_voucher_weight(s: &StorageManager, voucher_principal: Principal) -> (w: u32)
        ensures
            w as int == voucher_weight_for(total_vouches_by(s.companies.items@, voucher_principal)),
    {
        let companies = &s.companies.items;
        let mut cnt: u32 = 0;
        let mut i: usize = 0;
        proof {
            assert(companies@.subrange(0, 0) =~= Seq::<Company>::empty());
        }
        while i < companies.len()
            invariant
                companies@ == s.companies.items@,
                i <= companies@.len(),
                cnt <= 26,
                cnt as int == (if total_vouches_by(companies@.subrange(0, i as int), voucher_principal) <= 26 {
                    total_vouches_by(companies@.subrange(0, i as int), voucher_principal)
                } else {
                    26int
                }),
            decreases companies@.len() - i,
        {
            let ghost by_p = |v: Vouch| v.voucher_principal == voucher_principal;
            let vouches = &companies[i].community_validation.community_vouches;
            let mut inner: usize = 0;
            let mut j: usize = 0;
            proof {
                assert(vouches@.subrange(0, 0) =~= Seq::<Vouch>::empty());
            }
            while j < vouches.len()
                invariant
                    vouches@ == companies@[i as int].community_validation.community_vouches@,
                    i < companies@.len(),
                    j <= vouches@.len(),
                    inner == filtered(vouches@.subrange(0, j as int), by_p).len(),
                    inner <= j,
                    by_p == (|v: Vouch| v.voucher_principal == voucher_principal),
                decreases vouches@.len() - j,
            {
                if vouches[j].voucher_principal == voucher_principal {
                    inner = inner + 1;
                }
                j = j + 1;
                proof {
                    let prefix = vouches@.subrange(0, j as int);
                    assert(prefix.drop_last() =~= vouches@.subrange(0, j - 1));
                    assert(prefix.last() == vouches@[j - 1]);
                }
            }
            proof {
                assert(vouches@.subrange(0, vouches@.len() as int) =~= vouches@);
                assert(inner == vouches_by_in(
                    companies@[i as int].community_validation.community_vouches@,
                    voucher_principal,
                ));
            }
            // Accumulate, saturating where the weight bands already top out.
            let mut k: usize = 0;
            while k < inner
                invariant
                    k <= inner,
                    cnt <= 26,
                    cnt as int == (if total_vouches_by(companies@.subrange(0, i as int), voucher_principal) + k <= 26 {
                        total_vouches_by(companies@.subrange(0, i as int), voucher_principal) + k
                    } else {
                        26int
                    }),
                decreases inner - k,
            {
                if cnt < 26 {
                    cnt = cnt + 1;
                }
                k = k + 1;
            }
            i = i + 1;
            proof {
                let prefix = companies@.subrange(0, i as int);
                assert(prefix.drop_last() =~= companies@.subrange(0, i - 1));
                assert(prefix.last() == companies@[i - 1]);
            }
        }
        proof {
            assert(companies@.subrange(0, companies@.len() as int) =~= companies@);
        }
        if cnt <= 2 { 1 } else if cnt <= 10 { 2 } else if cnt <= 25 { 3 } else { 5 }
    }
}

// ---------------------------------------------------------------------------
// Input validity
// ---------------------------------------------------------------------------

/// An endorsement message must be present, bounded, and free of script
/// injection markers.
pub open spec fn endorsement_message_ok(m: Seq<char>) -> bool {
    !is_blank(m) && m.len() <= 1000 && !occurs_in(m, "<script>"@) && !occurs_in(m, "javascript:"@)
}

/// Markers of script injection, matched ignoring ASCII case.
pub open spec fn suspicious_text(t: Seq<char>) -> bool {
    ||| occurs_in_ci(t, "<script>"@)
    ||| occurs_in_ci(t, "</script>"@)
    ||| occurs_in_ci(t, "javascript:"@)
    ||| occurs_in_ci(t, "onerror="@)
    ||| occurs_in_ci(t, "onload="@)
    ||| occurs_in_ci(t, "eval("@)
    ||| occurs_in_ci(t, "document.cookie"@)
    ||| occurs_in_ci(t, "window.location"@)
}

/// Author, role and message of a testimonial must be present, bounded and
/// free of suspicious content.
pub open spec fn testimonial_fields_ok(author: Seq<char>, role: Seq<char>, msg: Seq<char>) -> bool {
    &&& !is_blank(author) && author.len() <= 100
    &&& !is_blank(role) && role.len() <= 100
    &&& !is_blank(msg) && msg.len() <= 1000
    &&& !suspicious_text(author) && !suspicious_text(role) && !suspicious_text(msg)
}

/// A vouch message must be present, bounded and free of suspicious content.
pub open spec fn vouch_message_ok(m: Seq<char>) -> bool {
    !is_blank(m) && m.len() <= 1000 && !suspicious_text(m)
}

/// Executable test for [`suspicious_text`].
fn is_suspicious(t: &str) -> (b: bool)
    ensures
        b == suspicious_text(t@),
{
    str_contains_ci(t, "<script>") || str_contains_ci(t, "</script>")
        || str_contains_ci(t, "javascript:") || str_contains_ci(t, "onerror=")
        || str_contains_ci(t, "onload=") || str_contains_ci(t, "eval(")
        || str_contains_ci(t, "document.cookie") || str_contains_ci(t, "window.location")
}

// ---------------------------------------------------------------------------
// Post-state descriptions
// ---------------------------------------------------------------------------

/// `c2` is `c` with one endorsement appended and the reputation rescored.
pub open spec fn endorsement_added(
    c: Company,
    c2: Company,
    endorser_id: Seq<char>,
    message: Seq<char>,
    caller: Principal,
    now: u64,
) -> bool {
    let es = c.community_validation.peer_endorsements@;
    let es2 = c2.community_validation.peer_endorsements@;
    &&& es2.len() == es.len() + 1
    &&& es2.subrange(0, es.len() as int) == es
    &&& es2.last().endorser_company_id@ == endorser_id
    &&& es2.last().message@ == message
    &&& es2.last().timestamp == now
    &&& es2.last().endorser_principal == caller
    &&& c2.community_validation == (CommunityValidation {
        peer_endorsements: c2.community_validation.peer_endorsements,
        reputation_score: c2.community_validation.reputation_score,
        ..c.community_validation
    })
    &&& rescored(c, c2, now)
}

/// `c2` is `c` with the given endorser's endorsements removed and the
/// reputation rescored.
pub open spec fn endorsement_removed(c: Company, c2: Company, endorser_id: Seq<char>, now: u64) -> bool {
    &&& c2.community_validation.peer_endorsements@ == filtered(
        c.community_validation.peer_endorsements@,
        |e: Endorsement| e.endorser_company_id@ != endorser_id,
    )
    &&& c2.community_validation == (CommunityValidation {
        peer_endorsements: c2.community_validation.peer_endorsements,
        reputation_score: c2.community_validation.reputation_score,
        ..c.community_validation
    })
    &&& rescored(c, c2, now)
}

/// `c2` is `c` with one unverified testimonial appended and rescored.
pub open spec fn testimonial_added(
    c: Company,
    c2: Company,
    author: Seq<char>,
    role: Seq<char>,
    message: Seq<char>,
    now: u64,
) -> bool {
    let ts = c.community_validation.employee_testimonials@;
    let ts2 = c2.community_validation.employee_testimonials@;
    &&& ts2.len() == ts.len() + 1
    &&& ts2.subrange(0, ts.len() as int) == ts
    &&& ts2.last().author_name@ == author
    &&& ts2.last().role@ == role
    &&& ts2.last().message@ == message
    &&& ts2.last().timestamp == now
    &&& !ts2.last().verified
    &&& c2.community_validation == (CommunityValidation {
        employee_testimonials: c2.community_validation.employee_testimonials,
        reputation_score: c2.community_validation.reputation_score,
        ..c.community_validation
    })
    &&& rescored(c, c2, now)
}

/// `c2` is `c` with the author's testimonials removed and rescored.
pub open spec fn testimonial_removed(c: Company, c2: Company, author: Seq<char>, now: u64) -> bool {
    &&& c2.community_validation.employee_testimonials@ == filtered(
        c.community_validation.employee_testimonials@,
        |t: Testimonial| t.author_name@ != author,
    )
    &&& c2.community_validation == (CommunityValidation {
        employee_testimonials: c2.community_validation.employee_testimonials,
        reputation_score: c2.community_validation.reputation_score,
        ..c.community_validation
    })
    &&& rescored(c, c2, now)
}

/// `c2` is `c` with the first testimonial by `author` marked with the given
/// verified flag (unchanged lists when the author has none), and rescored.
pub open spec fn testimonial_marked(
    c: Company,
    c2: Company,
    author: Seq<char>,
    value: bool,
    now: u64,
) -> bool {
    let ts = c.community_validation.employee_testimonials@;
    let ts2 = c2.community_validation.employee_testimonials@;
    &&& if exists|j: int| 0 <= j < ts.len() && (#[trigger] ts[j]).author_name@ == author {
        exists|j: int|
            {
                &&& 0 <= j < ts.len()
                &&& (#[trigger] ts[j]).author_name@ == author
                &&& forall|q: int| 0 <= q < j ==> (#[trigger] ts[q]).author_name@ != author
                &&& ts2 == ts.update(j, Testimonial { verified: value, ..ts[j] })
            }
    } else {
        ts2 == ts
    }
    &&& c2.community_validation == (CommunityValidation {
        employee_testimonials: c2.community_validation.employee_testimonials,
        reputation_score: c2.community_validation.reputation_score,
        ..c.community_validation
    })
    &&& rescored(c, c2, now)
}

/// `c2` is `c` with one vouch appended and rescored.
pub open spec fn vouch_added(
    c: Company,
    c2: Company,
    caller: Principal,
    message: Seq<char>,
    weight: u32,
    now: u64,
) -> bool {
    let vs = c.community_validation.community_vouches@;
    let vs2 = c2.community_validation.community_vouches@;
    &&& vs2.len() == vs.len() + 1
    &&& vs2.subrange(0, vs.len() as int) == vs
    &&& vs2.last().voucher_principal == caller
    &&& vs2.last().message@ == message
    &&& vs2.last().timestamp == now
    &&& vs2.last().weight == weight
    &&& c2.community_validation == (CommunityValidation {
        community_vouches: c2.community_validation.community_vouches,
        reputation_score: c2.community_validation.reputation_score,
        ..c.community_validation
    })
    &&& rescored(c, c2, now)
}

/// `c2` is `c` with the caller's vouches removed and rescored.
pub open spec fn vouch_removed(c: Company, c2: Company, caller: Principal, now: u64) -> bool {
    &&& c2.community_validation.community_vouches@ == filtered(
        c.community_validation.community_vouches@,
        |v: Vouch| v.voucher_principal != caller,
    )
    &&& c2.community_validation == (CommunityValidation {
        community_vouches: c2.community_validation.community_vouches,
        reputation_score: c2.community_validation.reputation_score,
        ..c.community_validation
    })
    &&& rescored(c, c2, now)
}

/// `c2` is `c` with the staked amount raised (saturating) and rescored.
pub open spec fn stake_added(c: Company, c2: Company, amount: u64, now: u64) -> bool {
    &&& c2.community_validation.reputation_staked == (
        if c.community_validation.reputation_staked + amount <= u64::MAX {
            c.community_validation.reputation_staked + amount
        } else {
            u64::MAX as int
        }
    )
    &&& c2.community_validation == (CommunityValidation {
        reputation_staked: c2.community_validation.reputation_staked,
        reputation_score: c2.community_validation.reputation_score,
        ..c.community_validation
    })
    &&& rescored(c, c2, now)
}

/// The parts common to every community mutation: the reputation score is
/// recomputed from the new signals and clamped, the status band follows the
/// new score, the update time is set, and every other field is unchanged.
pub open spec fn rescored(c: Company, c2: Company, now: u64) -> bool {
    &&& c2.community_validation.reputation_score as int == clamp_u32(reputation_score_spec(c2))
    &&& c2.status == status_for_reputation(c2.community_validation.reputation_score as int)
    &&& c2 == (Company {
        community_validation: c2.community_validation,
        status: c2.status,
        updated_at: now,
        ..c
    })
}

/// The parts of the state a community mutation may touch besides the
/// companies: the general rate-limit table and the audit stores.
pub open spec fn community_frame(pre: StorageManager, post: StorageManager) -> bool {
    post == (StorageManager {
        companies: post.companies,
        http_limits: post.http_limits,
        security_events: post.security_events,
        community_alerts: post.community_alerts,
        ..pre
    })
}

// ---------------------------------------------------------------------------
// Mutating operations
// ---------------------------------------------------------------------------

impl CommunityValidationManager {
    /// A company endorses another.  Rate limited; only the endorser's owner
    /// may act; self-endorsement, malformed messages and duplicates are
    /// refused.  On success the endorsement is appended and the target's
    /// reputation rescored.
    #[verifier::rlimit(100)]
    pub fn add_endorsement(
        s: &mut StorageManager,
        company_id: String,
        endorser_company_id: String,
        message: String,
        caller_principal: Principal,
        now: u64,
    ) -> (r: RegistryResult<()>)
        requires
            old(s).wf(),
        ensures
            final(s).wf(),
            community_frame(*old(s), *final(s)),
            match r {
                Err(RegistryError::RateLimited) => !crate::ratelimit::rl_admit(
                    old(s).http_limits.history_of(caller_principal),
                    now,
                    crate::storage::HTTP_RATE_WINDOW_NS,
                    crate::storage::HTTP_RATE_MAX as nat,
                ) && final(s).companies == old(s).companies,
                Err(RegistryError::CompanyNotFound) => (old(s).company_of(endorser_company_id@)
                    is None || old(s).company_of(company_id@) is None)
                    && final(s).companies == old(s).companies,
                Err(RegistryError::Unauthorized) => old(s).company_of(endorser_company_id@)
                    matches Some(e) && e.created_by != caller_principal
                    && final(s).companies == old(s).companies,
                Err(RegistryError::InvalidInput) => (company_id@ == endorser_company_id@
                    || !endorsement_message_ok(message@))
                    && final(s).companies == old(s).companies,
                Err(RegistryError::AlreadyExists) => old(s).company_of(company_id@)
                    matches Some(c) && (exists|j: int|
                        0 <= j < c.community_validation.peer_endorsements@.len()
                        && (#[trigger] c.community_validation.peer_endorsements@[j])
                            .endorser_company_id@ == endorser_company_id@)
                    && final(s).companies == old(s).companies,
                Ok(()) => {
                    &&& crate::ratelimit::rl_admit(
                        old(s).http_limits.history_of(caller_principal),
                        now,
                        crate::storage::HTTP_RATE_WINDOW_NS,
                        crate::storage::HTTP_RATE_MAX as nat,
                    )
                    &&& old(s).company_of(endorser_company_id@) matches Some(e)
                        && e.created_by == caller_principal
                    &&& company_id@ != endorser_company_id@
                    &&& endorsement_message_ok(message@)
                    &&& old(s).company_of(company_id@) is Some
                    &&& (forall|j: int| 0 <= j
                        < old(s).company_of(company_id@).unwrap()
                            .community_validation.peer_endorsements@.len()
                        ==> (#[trigger] old(s).company_of(company_id@).unwrap()
                                .community_validation.peer_endorsements@[j])
                            .endorser_company_id@ != endorser_company_id@)
                    &&& final(s).company_of(company_id@) is Some
                    &&& endorsement_added(
                        old(s).company_of(company_id@).unwrap(),
                        final(s).company_of(company_id@).unwrap(),
                        endorser_company_id@,
                        message@,
                        caller_principal,
                        now,
                    )
                    &&& (forall|k: Seq<char>| k != company_id@
                        ==> #[trigger] final(s).company_of(k) == old(s).company_of(k))
                },
                Err(_) => false,
            },
    {
        if !s.check_http_rate_limit(caller_principal, now) {
            let _ = MonitoringSystem::log_security_event(
                s,
                SecurityEventType::RateLimitExceeded,
                Some(caller_principal),
                SecuritySeverity::Medium,
                String::from_str("rate limit exceeded for endorsement creation"),
                None,
                None,
                now,
            );
            return Err(RegistryError::RateLimited);
        }
        let (endorser_exists, endorser_owner): (bool, bool) = match s.get_company(
            endorser_company_id.as_str(),
        ) {
            None => (false, false),
            Some(e) => (true, e.created_by == caller_principal),
        };
        if !endorser_exists {
            let _ = MonitoringSystem::log_security_event(
                s,
                SecurityEventType::SuspiciousInput,
                Some(caller_principal),
                SecuritySeverity::Low,
                String::from_str("endorsement attempted from a company that does not exist"),
                None,
                None,
                now,
            );
            return Err(RegistryError::CompanyNotFound);
        }
        if !endorser_owner {
            let _ = MonitoringSystem::log_security_event(
                s,
                SecurityEventType::UnauthorizedAccess,
                Some(caller_principal),
                SecuritySeverity::Medium,
                String::from_str("unauthorized endorsement attempt"),
                None,
                None,
                now,
            );
            return Err(RegistryError::Unauthorized);
        }
        if s.get_company(company_id.as_str()).is_none() {
            let _ = MonitoringSystem::log_security_event(
                s,
                SecurityEventType::SuspiciousInput,
                Some(caller_principal),
                SecuritySeverity::Low,
                String::from_str("endorsement attempted for a company that does not exist"),
                None,
                None,
                now,
            );
            return Err(RegistryError::CompanyNotFound);
        }
        if str_eq(company_id.as_str(), endorser_company_id.as_str()) {
            let _ = MonitoringSystem::log_security_event(
                s,
                SecurityEventType::SuspiciousInput,
                Some(caller_principal),
                SecuritySeverity::Medium,
                String::from_str("self-endorsement attempt blocked"),
                None,
                None,
                now,
            );
            return Err(RegistryError::InvalidInput);
        }
        if str_is_blank(message.as_str()) {
            return Err(RegistryError::InvalidInput);
        }
        if message.as_str().unicode_len() > 1000 {
            return Err(RegistryError::InvalidInput);
        }
        if str_contains(message.as_str(), "<script>")
            || str_contains(message.as_str(), "javascript:") {
            let _ = MonitoringSystem::log_security_event(
                s,
                SecurityEventType::XSSAttempt,
                Some(caller_principal),
                SecuritySeverity::High,
                String::from_str("script content refused in an endorsement message"),
                None,
                None,
                now,
            );
            return Err(RegistryError::InvalidInput);
        }
        let i = match s.companies.index_of(company_id.as_str()) {
            None => {
                return Err(RegistryError::CompanyNotFound);
            },
            Some(i) => i,
        };
        proof {
            s.companies.lemma_lookup_at(i as int);
        }
        // Refuse a duplicate endorsement by the same endorser.
        let existing = &s.companies.items[i].community_validation.peer_endorsements;
        let mut j: usize = 0;
        while j < existing.len()
            invariant
                s.wf(),
                community_frame(*old(s), *s),
                s.companies == old(s).companies,
                i < s.companies.items@.len(),
                old(s).company_of(company_id@) == Some(s.companies.items@[i as int]),
                existing@ == s.companies.items@[i as int].community_validation.peer_endorsements@,
                j <= existing@.len(),
                forall|q: int| 0 <= q < j
                    ==> (#[trigger] existing@[q]).endorser_company_id@ != endorser_company_id@,
            decreases existing@.len() - j,
        {
            if str_eq(existing[j].endorser_company_id.as_str(), endorser_company_id.as_str()) {
                return Err(RegistryError::AlreadyExists);
            }
            j = j + 1;
        }
        let endorsement = Endorsement {
            endorser_company_id,
            message,
            timestamp: now,
            endorser_principal: caller_principal,
        };
        let ghost c_old = s.companies.items@[i as int];
        let mut c = s.companies.remove_at(i);
        let ghost es_before = c.community_validation.peer_endorsements@;
        c.community_validation.peer_endorsements.push(endorsement);
        Self::update_reputation_score(&mut c);
        c.updated_at = now;
        proof {
            assert(c.community_validation.peer_endorsements@.subrange(
                0,
                es_before.len() as int,
            ) =~= es_before);
        }
        s.companies.insert_at(i, c);
        let _ = MonitoringSystem::log_security_event(
            s,
            SecurityEventType::SecurityScan,
            Some(caller_principal),
            SecuritySeverity::Low,
            String::from_str("endorsement created"),
            None,
            None,
            now,
        );
        Ok(())
    }

    /// Removes a company's endorsement of another; only the endorser's
    /// owner may act.
    pub fn remove_endorsement(
        s: &mut StorageManager,
        company_id: String,
        endorser_company_id: String,
        caller_principal: Principal,
        now: u64,
    ) -> (r: RegistryResult<()>)
        requires
            old(s).wf(),
        ensures
            final(s).wf(),
            community_frame(*old(s), *final(s)),
            match r {
                Err(RegistryError::CompanyNotFound) => (old(s).company_of(endorser_company_id@)
                    is None || old(s).company_of(company_id@) is None)
                    && final(s).companies == old(s).companies,
                Err(RegistryError::Unauthorized) => old(s).company_of(endorser_company_id@)
                    matches Some(e) && e.created_by != caller_principal
                    && final(s).companies == old(s).companies,
                Ok(()) => {
                    &&& old(s).company_of(endorser_company_id@) matches Some(e)
                        && e.created_by == caller_principal
                    &&& old(s).company_of(company_id@) is Some
                    &&& final(s).company_of(company_id@) is Some
                    &&& endorsement_removed(
                        old(s).company_of(company_id@).unwrap(),
                        final(s).company_of(company_id@).unwrap(),
                        endorser_company_id@,
                        now,
                    )
                    &&& (forall|k: Seq<char>| k != company_id@
                        ==> #[trigger] final(s).company_of(k) == old(s).company_of(k))
                },
                Err(_) => false,
            },
    {
        let (endorser_exists, endorser_owner): (bool, bool) = match s.get_company(
            endorser_company_id.as_str(),
        ) {
            None => (false, false),
            Some(e) => (true, e.created_by == caller_principal),
        };
        if !endorser_exists {
            return Err(RegistryError::CompanyNotFound);
        }
        if !endorser_owner {
            return Err(RegistryError::Unauthorized);
        }
        let i = match s.companies.index_of(company_id.as_str()) {
            None => {
                return Err(RegistryError::CompanyNotFound);
            },
            Some(i) => i,
        };
        proof {
            s.companies.lemma_lookup_at(i as int);
        }
        let ghost keep = |e: Endorsement| e.endorser_company_id@ != endorser_company_id@;
        let mut c = s.companies.remove_at(i);
        let mut kept: Vec<Endorsement> = Vec::new();
        let es = &c.community_validation.peer_endorsements;
        let mut j: usize = 0;
        proof {
            assert(es@.subrange(0, 0) =~= Seq::<Endorsement>::empty());
        }
        while j < es.len()
            invariant
                j <= es@.len(),
                kept@ == filtered(es@.subrange(0, j as int), keep),
                keep == (|e: Endorsement| e.endorser_company_id@ != endorser_company_id@),
            decreases es@.len() - j,
        {
            if !str_eq(es[j].endorser_company_id.as_str(), endorser_company_id.as_str()) {
                kept.push(es[j].clone());
            }
            j = j + 1;
            proof {
                let prefix = es@.subrange(0, j as int);
                assert(prefix.drop_last() =~= es@.subrange(0, j - 1));
                assert(prefix.last() == es@[j - 1]);
            }
        }
        proof {
            assert(es@.subrange(0, es@.len() as int) =~= es@);
        }
        c.community_validation.peer_endorsements = kept;
        Self::update_reputation_score(&mut c);
        c.updated_at = now;
        s.companies.insert_at(i, c);
        Ok(())
    }
}

impl CommunityValidationManager {
    /// Adds an (initially unverified) employee testimonial.  Rate limited;
    /// the fields must be present, bounded and clean; one testimonial per
    /// author name.
    #[verifier::rlimit(100)]
    pub fn add_testimonial(
        s: &mut StorageManager,
        company_id: String,
        author_name: String,
        role: String,
        message: String,
        caller_principal: Principal,
        now: u64,
    ) -> (r: RegistryResult<()>)
        requires
            old(s).wf(),
        ensures
            final(s).wf(),
            community_frame(*old(s), *final(s)),
            match r {
                Err(RegistryError::RateLimited) => !crate::ratelimit::rl_admit(
                    old(s).http_limits.history_of(caller_principal),
                    now,
                    crate::storage::HTTP_RATE_WINDOW_NS,
                    crate::storage::HTTP_RATE_MAX as nat,
                ) && final(s).companies == old(s).companies,
                Err(RegistryError::CompanyNotFound) => old(s).company_of(company_id@) is None
                    && final(s).companies == old(s).companies,
                Err(RegistryError::InvalidInput) => !testimonial_fields_ok(
                    author_name@,
                    role@,
                    message@,
                ) && final(s).companies == old(s).companies,
                Err(RegistryError::AlreadyExists) => old(s).company_of(company_id@)
                    matches Some(c) && (exists|j: int|
                        0 <= j < c.community_validation.employee_testimonials@.len()
                        && (#[trigger] c.community_validation.employee_testimonials@[j])
                            .author_name@ == author_name@)
                    && final(s).companies == old(s).companies,
                Ok(()) => {
                    &&& crate::ratelimit::rl_admit(
                        old(s).http_limits.history_of(caller_principal),
                        now,
                        crate::storage::HTTP_RATE_WINDOW_NS,
                        crate::storage::HTTP_RATE_MAX as nat,
                    )
                    &&& testimonial_fields_ok(author_name@, role@, message@)
                    &&& old(s).company_of(company_id@) is Some
                    &&& (forall|j: int| 0 <= j
                        < old(s).company_of(company_id@).unwrap()
                            .community_validation.employee_testimonials@.len()
                        ==> (#[trigger] old(s).company_of(company_id@).unwrap()
                                .community_validation.employee_testimonials@[j])
                            .author_name@ != author_name@)
                    &&& final(s).company_of(company_id@) is Some
                    &&& testimonial_added(
                        old(s).company_of(company_id@).unwrap(),
                        final(s).company_of(company_id@).unwrap(),
                        author_name@,
                        role@,
                        message@,
                        now,
                    )
                    &&& (forall|k: Seq<char>| k != company_id@
                        ==> #[trigger] final(s).company_of(k) == old(s).company_of(k))
                },
                Err(_) => false,
            },
    {
        if !s.check_http_rate_limit(caller_principal, now) {
            let _ = MonitoringSystem::log_security_event(
                s,
                SecurityEventType::RateLimitExceeded,
                Some(caller_principal),
                SecuritySeverity::Medium,
                String::from_str("rate limit exceeded for testimonial creation"),
                None,
                None,
                now,
            );
            return Err(RegistryError::RateLimited);
        }
        if s.get_company(company_id.as_str()).is_none() {
            let _ = MonitoringSystem::log_security_event(
                s,
                SecurityEventType::SuspiciousInput,
                Some(caller_principal),
                SecuritySeverity::Low,
                String::from_str("testimonial attempted for a company that does not exist"),
                None,
                None,
                now,
            );
            return Err(RegistryError::CompanyNotFound);
        }
        if str_is_blank(author_name.as_str()) || author_name.as_str().unicode_len() > 100
            || str_is_blank(role.as_str()) || role.as_str().unicode_len() > 100
            || str_is_blank(message.as_str()) || message.as_str().unicode_len() > 1000 {
            return Err(RegistryError::InvalidInput);
        }
        if is_suspicious(author_name.as_str()) || is_suspicious(role.as_str())
            || is_suspicious(message.as_str()) {
            let _ = MonitoringSystem::log_security_event(
                s,
                SecurityEventType::XSSAttempt,
                Some(caller_principal),
                SecuritySeverity::High,
                String::from_str("suspicious content refused in a testimonial"),
                None,
                None,
                now,
            );
            return Err(RegistryError::InvalidInput);
        }
        let i = match s.companies.index_of(company_id.as_str()) {
            None => {
                return Err(RegistryError::CompanyNotFound);
            },
            Some(i) => i,
        };
        proof {
            s.companies.lemma_lookup_at(i as int);
        }
        let existing = &s.companies.items[i].community_validation.employee_testimonials;
        let mut j: usize = 0;
        while j < existing.len()
            invariant
                s.wf(),
                community_frame(*old(s), *s),
                s.companies == old(s).companies,
                i < s.companies.items@.len(),
                old(s).company_of(company_id@) == Some(s.companies.items@[i as int]),
                existing@ == s.companies.items@[i as int].community_validation
                    .employee_testimonials@,
                j <= existing@.len(),
                forall|q: int| 0 <= q < j
                    ==> (#[trigger] existing@[q]).author_name@ != author_name@,
            decreases existing@.len() - j,
        {
            if str_eq(existing[j].author_name.as_str(), author_name.as_str()) {
                return Err(RegistryError::AlreadyExists);
            }
            j = j + 1;
        }
        let testimonial = Testimonial {
            author_name,
            role,
            message,
            timestamp: now,
            verified: false,
        };
        let ghost c_old = s.companies.items@[i as int];
        let mut c = s.companies.remove_at(i);
        let ghost ts_before = c.community_validation.employee_testimonials@;
        c.community_validation.employee_testimonials.push(testimonial);
        Self::update_reputation_score(&mut c);
        c.updated_at = now;
        proof {
            assert(c.community_validation.employee_testimonials@.subrange(
                0,
                ts_before.len() as int,
            ) =~= ts_before);
        }
        s.companies.insert_at(i, c);
        let _ = MonitoringSystem::log_security_event(
            s,
            SecurityEventType::SecurityScan,
            Some(caller_principal),
            SecuritySeverity::Low,
            String::from_str("testimonial created"),
            None,
            None,
            now,
        );
        Ok(())
    }

    /// Removes a testimonial by author; only the company's owner may act.
    pub fn remove_testimonial(
        s: &mut StorageManager,
        company_id: String,
        author_name: String,
        caller_principal: Principal,
        now: u64,
    ) -> (r: RegistryResult<()>)
        requires
            old(s).wf(),
        ensures
            final(s).wf(),
            community_frame(*old(s), *final(s)),
            match r {
                Err(RegistryError::CompanyNotFound) => old(s).company_of(company_id@) is None
                    && final(s).companies == old(s).companies,
                Err(RegistryError::TestimonialNotFound) => old(s).company_of(company_id@)
                    matches Some(c) && (forall|j: int|
                        0 <= j < c.community_validation.employee_testimonials@.len()
                        ==> (#[trigger] c.community_validation.employee_testimonials@[j])
                            .author_name@ != author_name@)
                    && final(s).companies == old(s).companies,
                Err(RegistryError::Unauthorized) => old(s).company_of(company_id@)
                    matches Some(c) && c.created_by != caller_principal
                    && final(s).companies == old(s).companies,
                Ok(()) => {
                    &&& old(s).company_of(company_id@) matches Some(c)
                        && c.created_by == caller_principal
                    &&& final(s).company_of(company_id@) is Some
                    &&& testimonial_removed(
                        old(s).company_of(company_id@).unwrap(),
                        final(s).company_of(company_id@).unwrap(),
                        author_name@,
                        now,
                    )
                    &&& (forall|k: Seq<char>| k != company_id@
                        ==> #[trigger] final(s).company_of(k) == old(s).company_of(k))
                },
                Err(_) => false,
            },
    {
        let i = match s.companies.index_of(company_id.as_str()) {
            None => {
                return Err(RegistryError::CompanyNotFound);
            },
            Some(i) => i,
        };
        proof {
            s.companies.lemma_lookup_at(i as int);
        }
        let existing = &s.companies.items[i].community_validation.employee_testimonials;
        let mut found = false;
        let mut j: usize = 0;
        while j < existing.len()
            invariant
                i < s.companies.items@.len(),
                existing@ == s.companies.items@[i as int].community_validation
                    .employee_testimonials@,
                j <= existing@.len(),
                found ==> exists|q: int| 0 <= q < existing@.len()
                    && (#[trigger] existing@[q]).author_name@ == author_name@,
                !found ==> forall|q: int| 0 <= q < j
                    ==> (#[trigger] existing@[q]).author_name@ != author_name@,
            decreases existing@.len() - j,
        {
            if str_eq(existing[j].author_name.as_str(), author_name.as_str()) {
                found = true;
            }
            j = j + 1;
        }
        if !found {
            return Err(RegistryError::TestimonialNotFound);
        }
        let owner = s.companies.items[i].created_by == caller_principal;
        if !owner {
            return Err(RegistryError::Unauthorized);
        }
        let ghost keep = |t: Testimonial| t.author_name@ != author_name@;
        let mut c = s.companies.remove_at(i);
        let mut kept: Vec<Testimonial> = Vec::new();
        let ts = &c.community_validation.employee_testimonials;
        let mut q: usize = 0;
        proof {
            assert(ts@.subrange(0, 0) =~= Seq::<Testimonial>::empty());
        }
        while q < ts.len()
            invariant
                q <= ts@.len(),
                kept@ == filtered(ts@.subrange(0, q as int), keep),
                keep == (|t: Testimonial| t.author_name@ != author_name@),
            decreases ts@.len() - q,
        {
            if !str_eq(ts[q].author_name.as_str(), author_name.as_str()) {
                kept.push(ts[q].clone());
            }
            q = q + 1;
            proof {
                let prefix = ts@.subrange(0, q as int);
                assert(prefix.drop_last() =~= ts@.subrange(0, q - 1));
                assert(prefix.last() == ts@[q - 1]);
            }
        }
        proof {
            assert(ts@.subrange(0, ts@.len() as int) =~= ts@);
        }
        c.community_validation.employee_testimonials = kept;
        Self::update_reputation_score(&mut c);
        c.updated_at = now;
        s.companies.insert_at(i, c);
        Ok(())
    }

    /// Marks the first testimonial by the author as verified; only the
    /// company's owner may act.  A missing author changes no testimonial,
    /// but the reputation is still rescored.
    pub fn verify_testimonial(
        s: &mut StorageManager,
        company_id: String,
        author_name: String,
        caller_principal: Principal,
        now: u64,
    ) -> (r: RegistryResult<()>)
        requires
            old(s).wf(),
        ensures
            final(s).wf(),
            community_frame(*old(s), *final(s)),
            match r {
                Err(RegistryError::CompanyNotFound) => old(s).company_of(company_id@) is None
                    && final(s).companies == old(s).companies,
                Err(RegistryError::Unauthorized) => old(s).company_of(company_id@)
                    matches Some(c) && c.created_by != caller_principal
                    && final(s).companies == old(s).companies,
                Ok(()) => {
                    &&& old(s).company_of(company_id@) matches Some(c)
                        && c.created_by == caller_principal
                    &&& final(s).company_of(company_id@) is Some
                    &&& testimonial_marked(
                        old(s).company_of(company_id@).unwrap(),
                        final(s).company_of(company_id@).unwrap(),
                        author_name@,
                        true,
                        now,
                    )
                    &&& (forall|k: Seq<char>| k != company_id@
                        ==> #[trigger] final(s).company_of(k) == old(s).company_of(k))
                },
                Err(_) => false,
            },
    {
        mark_testimonial(s, company_id, author_name, true, caller_principal, true, now)
    }

    /// Marks the first testimonial by the author as unverified (used by
    /// moderation to withdraw verified standing).
    pub fn flag_testimonial(
        s: &mut StorageManager,
        company_id: String,
        author_name: String,
        admin_principal: Principal,
        now: u64,
    ) -> (r: RegistryResult<()>)
        requires
            old(s).wf(),
        ensures
            final(s).wf(),
            community_frame(*old(s), *final(s)),
            match r {
                Err(RegistryError::CompanyNotFound) => old(s).company_of(company_id@) is None
                    && final(s).companies == old(s).companies,
                Ok(()) => {
                    &&& old(s).company_of(company_id@) is Some
                    &&& final(s).company_of(company_id@) is Some
                    &&& testimonial_marked(
                        old(s).company_of(company_id@).unwrap(),
                        final(s).company_of(company_id@).unwrap(),
                        author_name@,
                        false,
                        now,
                    )
                    &&& (forall|k: Seq<char>| k != company_id@
                        ==> #[trigger] final(s).company_of(k) == old(s).company_of(k))
                },
                Err(_) => false,
            },
    {
        mark_testimonial(s, company_id, author_name, false, admin_principal, false, now)
    }
}

/// Shared worker for setting a testimonial's verified flag.
fn mark_testimonial(
    s: &mut StorageManager,
    company_id: String,
    author_name: String,
    value: bool,
    caller_principal: Principal,
    check_owner: bool,
    now: u64,
) -> (r: RegistryResult<()>)
    requires
        old(s).wf(),
    ensures
        final(s).wf(),
        community_frame(*old(s), *final(s)),
        match r {
            Err(RegistryError::CompanyNotFound) => old(s).company_of(company_id@) is None
                && final(s).companies == old(s).companies,
            Err(RegistryError::Unauthorized) => check_owner && (old(s).company_of(company_id@)
                matches Some(c) && c.created_by != caller_principal)
                && final(s).companies == old(s).companies,
            Ok(()) => {
                &&& old(s).company_of(company_id@) is Some
                &&& (check_owner ==> old(s).company_of(company_id@).unwrap().created_by
                    == caller_principal)
                &&& final(s).company_of(company_id@) is Some
                &&& testimonial_marked(
                    old(s).company_of(company_id@).unwrap(),
                    final(s).company_of(company_id@).unwrap(),
                    author_name@,
                    value,
                    now,
                )
                &&& (forall|k: Seq<char>| k != company_id@
                    ==> #[trigger] final(s).company_of(k) == old(s).company_of(k))
            },
            Err(_) => false,
        },
{
    let i = match s.companies.index_of(company_id.as_str()) {
        None => {
            return Err(RegistryError::CompanyNotFound);
        },
        Some(i) => i,
    };
    proof {
        s.companies.lemma_lookup_at(i as int);
    }
    if check_owner {
        let owner = s.companies.items[i].created_by == caller_principal;
        if !owner {
            return Err(RegistryError::Unauthorized);
        }
    }
    let ghost c_old = s.companies.items@[i as int];
    let mut c = s.companies.remove_at(i);
    let n = c.community_validation.employee_testimonials.len();
    let mut j: usize = 0;
    let mut target: Option<usize> = None;
    while j < n && target.is_none()
        invariant
            n == c.community_validation.employee_testimonials@.len(),
            c == c_old,
            j <= n,
            match target {
                Some(t) => t < n
                    && c.community_validation.employee_testimonials@[t as int].author_name@
                        == author_name@
                    && (forall|q: int| 0 <= q < t
                        ==> (#[trigger] c.community_validation.employee_testimonials@[q])
                            .author_name@ != author_name@),
                None => forall|q: int| 0 <= q < j
                    ==> (#[trigger] c.community_validation.employee_testimonials@[q])
                        .author_name@ != author_name@,
            },
        decreases n - j, (if target is None { 1int } else { 0int }),
    {
        if str_eq(
            c.community_validation.employee_testimonials[j].author_name.as_str(),
            author_name.as_str(),
        ) {
            target = Some(j);
        } else {
            j = j + 1;
        }
    }
    match target {
        Some(t) => {
            let mut item = c.community_validation.employee_testimonials.remove(t);
            item.verified = value;
            c.community_validation.employee_testimonials.insert(t, item);
            proof {
                assert(c.community_validation.employee_testimonials@
                    =~= c_old.community_validation.employee_testimonials@.update(
                        t as int,
                        Testimonial {
                            verified: value,
                            ..c_old.community_validation.employee_testimonials@[t as int]
                        },
                    ));
            }
        },
        None => {},
    }
    CommunityValidationManager::update_reputation_score(&mut c);
    c.updated_at = now;
    s.companies.insert_at(i, c);
    Ok(())
}

impl CommunityValidationManager {
    /// Adds a community vouch by the caller.  Rate limited; one vouch per
    /// principal; the voucher's weight comes from its registry-wide
    /// activity.
    #[verifier::rlimit(100)]
    pub fn add_vouch(
        s: &mut StorageManager,
        company_id: String,
        message: String,
        caller_principal: Principal,
        now: u64,
    ) -> (r: RegistryResult<()>)
        requires
            old(s).wf(),
        ensures
            final(s).wf(),
            community_frame(*old(s), *final(s)),
            match r {
                Err(RegistryError::RateLimited) => !crate::ratelimit::rl_admit(
                    old(s).http_limits.history_of(caller_principal),
                    now,
                    crate::storage::HTTP_RATE_WINDOW_NS,
                    crate::storage::HTTP_RATE_MAX as nat,
                ) && final(s).companies == old(s).companies,
                Err(RegistryError::CompanyNotFound) => old(s).company_of(company_id@) is None
                    && final(s).companies == old(s).companies,
                Err(RegistryError::InvalidInput) => !vouch_message_ok(message@)
                    && final(s).companies == old(s).companies,
                Err(RegistryError::AlreadyExists) => old(s).company_of(company_id@)
                    matches Some(c) && (exists|j: int|
                        0 <= j < c.community_validation.community_vouches@.len()
                        && (#[trigger] c.community_validation.community_vouches@[j])
                            .voucher_principal == caller_principal)
                    && final(s).companies == old(s).companies,
                Ok(()) => {
                    &&& crate::ratelimit::rl_admit(
                        old(s).http_limits.history_of(caller_principal),
                        now,
                        crate::storage::HTTP_RATE_WINDOW_NS,
                        crate::storage::HTTP_RATE_MAX as nat,
                    )
                    &&& vouch_message_ok(message@)
                    &&& old(s).company_of(company_id@) is Some
                    &&& (forall|j: int| 0 <= j
                        < old(s).company_of(company_id@).unwrap()
                            .community_validation.community_vouches@.len()
                        ==> (#[trigger] old(s).company_of(company_id@).unwrap()
                                .community_validation.community_vouches@[j])
                            .voucher_principal != caller_principal)
                    &&& final(s).company_of(company_id@) is Some
                    &&& vouch_added(
                        old(s).company_of(company_id@).unwrap(),
                        final(s).company_of(company_id@).unwrap(),
                        caller_principal,
                        message@,
                        (voucher_weight_for(
                            total_vouches_by(old(s).companies.items@, caller_principal),
                        )) as u32,
                        now,
                    )
                    &&& (forall|k: Seq<char>| k != company_id@
                        ==> #[trigger] final(s).company_of(k) == old(s).company_of(k))
                },
                Err(_) => false,
            },
    {
        if !s.check_http_rate_limit(caller_principal, now) {
            let _ = MonitoringSystem::log_security_event(
                s,
                SecurityEventType::RateLimitExceeded,
                Some(caller_principal),
                SecuritySeverity::Medium,
                String::from_str("rate limit exceeded for vouch creation"),
                None,
                None,
                now,
            );
            return Err(RegistryError::RateLimited);
        }
        if s.get_company(company_id.as_str()).is_none() {
            let _ = MonitoringSystem::log_security_event(
                s,
                SecurityEventType::SuspiciousInput,
                Some(caller_principal),
                SecuritySeverity::Low,
                String::from_str("vouch attempted for a company that does not exist"),
                None,
                None,
                now,
            );
            return Err(RegistryError::CompanyNotFound);
        }
        if str_is_blank(message.as_str()) || message.as_str().unicode_len() > 1000 {
            return Err(RegistryError::InvalidInput);
        }
        if is_suspicious(message.as_str()) {
            let _ = MonitoringSystem::log_security_event(
                s,
                SecurityEventType::XSSAttempt,
                Some(caller_principal),
                SecuritySeverity::High,
                String::from_str("suspicious content refused in a vouch message"),
                None,
                None,
                now,
            );
            return Err(RegistryError::InvalidInput);
        }
        let i = match s.companies.index_of(company_id.as_str()) {
            None => {
                return Err(RegistryError::CompanyNotFound);
            },
            Some(i) => i,
        };
        proof {
            s.companies.lemma_lookup_at(i as int);
        }
        let existing = &s.companies.items[i].community_validation.community_vouches;
        let mut j: usize = 0;
        while j < existing.len()
            invariant
                s.wf(),
                community_frame(*old(s), *s),
                s.companies == old(s).companies,
                i < s.companies.items@.len(),
                old(s).company_of(company_id@) == Some(s.companies.items@[i as int]),
                existing@ == s.companies.items@[i as int].community_validation.community_vouches@,
                j <= existing@.len(),
                forall|q: int| 0 <= q < j
                    ==> (#[trigger] existing@[q]).voucher_principal != caller_principal,
            decreases existing@.len() - j,
        {
            if existing[j].voucher_principal == caller_principal {
                return Err(RegistryError::AlreadyExists);
            }
            j = j + 1;
        }
        let weight = Self::calculate_voucher_weight(s, caller_principal);
        let vouch = Vouch {
            voucher_principal: caller_principal,
            message,
            timestamp: now,
            weight,
        };
        let ghost c_old = s.companies.items@[i as int];
        let mut c = s.companies.remove_at(i);
        let ghost vs_before = c.community_validation.community_vouches@;
        c.community_validation.community_vouches.push(vouch);
        Self::update_reputation_score(&mut c);
        c.updated_at = now;
        proof {
            assert(c.community_validation.community_vouches@.subrange(
                0,
                vs_before.len() as int,
            ) =~= vs_before);
        }
        s.companies.insert_at(i, c);
        let _ = MonitoringSystem::log_security_event(
            s,
            SecurityEventType::SecurityScan,
            Some(caller_principal),
            SecuritySeverity::Low,
            String::from_str("community vouch created"),
            None,
            None,
            now,
        );
        Ok(())
    }

    /// Removes the caller's vouch for a company.
    pub fn remove_vouch(
        s: &mut StorageManager,
        company_id: String,
        caller_principal: Principal,
        now: u64,
    ) -> (r: RegistryResult<()>)
        requires
            old(s).wf(),
        ensures
            final(s).wf(),
            community_frame(*old(s), *final(s)),
            match r {
                Err(RegistryError::CompanyNotFound) => old(s).company_of(company_id@) is None
                    && final(s).companies == old(s).companies,
                Ok(()) => {
                    &&& old(s).company_of(company_id@) is Some
                    &&& final(s).company_of(company_id@) is Some
                    &&& vouch_removed(
                        old(s).company_of(company_id@).unwrap(),
                        final(s).company_of(company_id@).unwrap(),
                        caller_principal,
                        now,
                    )
                    &&& (forall|k: Seq<char>| k != company_id@
                        ==> #[trigger] final(s).company_of(k) == old(s).company_of(k))
                },
                Err(_) => false,
            },
    {
        let i = match s.companies.index_of(company_id.as_str()) {
            None => {
                return Err(RegistryError::CompanyNotFound);
            },
            Some(i) => i,
        };
        proof {
            s.companies.lemma_lookup_at(i as int);
        }
        let ghost keep = |v: Vouch| v.voucher_principal != caller_principal;
        let mut c = s.companies.remove_at(i);
        let mut kept: Vec<Vouch> = Vec::new();
        let vs = &c.community_validation.community_vouches;
        let mut q: usize = 0;
        proof {
            assert(vs@.subrange(0, 0) =~= Seq::<Vouch>::empty());
        }
        while q < vs.len()
            invariant
                q <= vs@.len(),
                kept@ == filtered(vs@.subrange(0, q as int), keep),
                keep == (|v: Vouch| v.voucher_principal != caller_principal),
            decreases vs@.len() - q,
        {
            if !(vs[q].voucher_principal == caller_principal) {
                kept.push(vs[q].clone());
            }
            q = q + 1;
            proof {
                let prefix = vs@.subrange(0, q as int);
                assert(prefix.drop_last() =~= vs@.subrange(0, q - 1));
                assert(prefix.last() == vs@[q - 1]);
            }
        }
        proof {
            assert(vs@.subrange(0, vs@.len() as int) =~= vs@);
        }
        c.community_validation.community_vouches = kept;
        Self::update_reputation_score(&mut c);
        c.updated_at = now;
        s.companies.insert_at(i, c);
        Ok(())
    }

    /// Raises a company's staked reputation; only the owner may act, and
    /// the stake must be positive.
    pub fn stake_reputation(
        s: &mut StorageManager,
        company_id: String,
        amount: u64,
        caller_principal: Principal,
        now: u64,
    ) -> (r: RegistryResult<()>)
        requires
            old(s).wf(),
        ensures
            final(s).wf(),
            community_frame(*old(s), *final(s)),
            match r {
                Err(RegistryError::CompanyNotFound) => old(s).company_of(company_id@) is None
                    && final(s).companies == old(s).companies,
                Err(RegistryError::Unauthorized) => old(s).company_of(company_id@)
                    matches Some(c) && c.created_by != caller_principal
                    && final(s).companies == old(s).companies,
                Err(RegistryError::InvalidInput) => amount == 0
                    && final(s).companies == old(s).companies,
                Ok(()) => {
                    &&& amount > 0
                    &&& old(s).company_of(company_id@) matches Some(c)
                        && c.created_by == caller_principal
                    &&& final(s).company_of(company_id@) is Some
                    &&& stake_added(
                        old(s).company_of(company_id@).unwrap(),
                        final(s).company_of(company_id@).unwrap(),
                        amount,
                        now,
                    )
                    &&& (forall|k: Seq<char>| k != company_id@
                        ==> #[trigger] final(s).company_of(k) == old(s).company_of(k))
                },
                Err(_) => false,
            },
    {
        let i = match s.companies.index_of(company_id.as_str()) {
            None => {
                return Err(RegistryError::CompanyNotFound);
            },
            Some(i) => i,
        };
        proof {
            s.companies.lemma_lookup_at(i as int);
        }
        let owner = s.companies.items[i].created_by == caller_principal;
        if !owner {
            return Err(RegistryError::Unauthorized);
        }
        if amount == 0 {
            return Err(RegistryError::InvalidInput);
        }
        let mut c = s.companies.remove_at(i);
        c.community_validation.reputation_staked = sat_add(
            c.community_validation.reputation_staked,
            amount,
        );
        Self::update_reputation_score(&mut c);
        c.updated_at = now;
        s.companies.insert_at(i, c);
        Ok(())
    }
}

// ---------------------------------------------------------------------------
// Queries
// ---------------------------------------------------------------------------

impl CommunityValidationManager {
    /// Borrows a company's community validation aggregate.
    pub fn get_community_validation(s: &StorageManager, company_id: String) -> (r: RegistryResult<
        &CommunityValidation,
    >)
        requires
            s.wf(),
        ensures
            match r {
                Ok(cv) => s.company_of(company_id@) matches Some(c)
                    && *cv == c.community_validation,
                Err(e) => e == RegistryError::CompanyNotFound
                    && s.company_of(company_id@) is None,
            },
    {
        match s.get_company(company_id.as_str()) {
            Some(c) => Ok(&c.community_validation),
            None => Err(RegistryError::CompanyNotFound),
        }
    }

    /// Borrows a company's endorsements.
    pub fn get_endorsements_for_company(s: &StorageManager, company_id: String) -> (r:
        RegistryResult<&Vec<Endorsement>>)
        requires
            s.wf(),
        ensures
            match r {
                Ok(es) => s.company_of(company_id@) matches Some(c)
                    && es@ == c.community_validation.peer_endorsements@,
                Err(e) => e == RegistryError::CompanyNotFound
                    && s.company_of(company_id@) is None,
            },
    {
        match s.get_company(company_id.as_str()) {
            Some(c) => Ok(&c.community_validation.peer_endorsements),
            None => Err(RegistryError::CompanyNotFound),
        }
    }

    /// Borrows a company's testimonials.
    pub fn get_testimonials_for_company(s: &StorageManager, company_id: String) -> (r:
        RegistryResult<&Vec<Testimonial>>)
        requires
            s.wf(),
        ensures
            match r {
                Ok(ts) => s.company_of(company_id@) matches Some(c)
                    && ts@ == c.community_validation.employee_testimonials@,
                Err(e) => e == RegistryError::CompanyNotFound
                    && s.company_of(company_id@) is None,
            },
    {
        match s.get_company(company_id.as_str()) {
            Some(c) => Ok(&c.community_validation.employee_testimonials),
            None => Err(RegistryError::CompanyNotFound),
        }
    }

    /// Borrows a company's vouches.
    pub fn get_vouches_for_company(s: &StorageManager, company_id: String) -> (r: RegistryResult<
        &Vec<Vouch>,
    >)
        requires
            s.wf(),
        ensures
            match r {
                Ok(vs) => s.company_of(company_id@) matches Some(c)
                    && vs@ == c.community_validation.community_vouches@,
                Err(e) => e == RegistryError::CompanyNotFound
                    && s.company_of(company_id@) is None,
            },
    {
        match s.get_company(company_id.as_str()) {
            Some(c) => Ok(&c.community_validation.community_vouches),
            None => Err(RegistryError::CompanyNotFound),
        }
    }

    /// Summarizes a company's community validation (counts clamped to the
    /// counter range).
    pub fn get_community_validation_stats(s: &StorageManager, company_id: String) -> (r:
        RegistryResult<CommunityValidationStats>)
        requires
            s.wf(),
        ensures
            match r {
                Ok(st) => s.company_of(company_id@) matches Some(c) && {
                    let cv = c.community_validation;
                    &&& st.total_endorsements as int == clamp_u32(cv.peer_endorsements@.len() as int)
                    &&& st.total_testimonials as int == clamp_u32(
                        cv.employee_testimonials@.len() as int,
                    )
                    &&& st.verified_testimonials as int == clamp_u32(
                        filtered(cv.employee_testimonials@, |t: Testimonial| t.verified).len()
                            as int,
                    )
                    &&& st.total_vouches as int == clamp_u32(cv.community_vouches@.len() as int)
                    &&& st.reputation_score == cv.reputation_score
                    &&& st.reputation_staked == cv.reputation_staked
                },
                Err(e) => e == RegistryError::CompanyNotFound
                    && s.company_of(company_id@) is None,
            },
    {
        let ghost verified_t = |t: Testimonial| t.verified;
        let c = match s.get_company(company_id.as_str()) {
            Some(c) => c,
            None => {
                return Err(RegistryError::CompanyNotFound);
            },
        };
        let cv = &c.community_validation;
        let mut verified_count: u32 = 0;
        let ts = &cv.employee_testimonials;
        let mut i: usize = 0;
        proof {
            assert(ts@.subrange(0, 0) =~= Seq::<Testimonial>::empty());
        }
        while i < ts.len()
            invariant
                ts@ == c.community_validation.employee_testimonials@,
                i <= ts@.len(),
                verified_count as int == clamp_u32(
                    filtered(ts@.subrange(0, i as int), verified_t).len() as int,
                ),
                verified_t == (|t: Testimonial| t.verified),
            decreases ts@.len() - i,
        {
            if ts[i].verified {
                verified_count = add_clamped(verified_count, 1);
            }
            i = i + 1;
            proof {
                let prefix = ts@.subrange(0, i as int);
                assert(prefix.drop_last() =~= ts@.subrange(0, i - 1));
                assert(prefix.last() == ts@[i - 1]);
            }
        }
        proof {
            assert(ts@.subrange(0, ts@.len() as int) =~= ts@);
        }
        Ok(CommunityValidationStats {
            total_endorsements: len_clamped(cv.peer_endorsements.len()),
            total_testimonials: len_clamped(cv.employee_testimonials.len()),
            verified_testimonials: verified_count,
            total_vouches: len_clamped(cv.community_vouches.len()),
            reputation_score: cv.reputation_score,
            reputation_staked: cv.reputation_staked,
        })
    }

    /// The stored companies with at least `min_score` reputation, highest
    /// first, at most `limit` of them (50 when unspecified).
    pub fn get_companies_by_reputation(s: &StorageManager, min_score: u32, limit: Option<u32>) -> (r:
        Vec<&Company>)
        requires
            s.wf(),
        ensures
            forall|i: int, j: int| 0 <= i < j < r@.len()
                ==> r@[i].community_validation.reputation_score
                    >= r@[j].community_validation.reputation_score,
            r@.len() == spec_min_len(
                match limit {
                    Some(l) => l as int,
                    None => 50,
                },
                filtered(
                    s.companies.items@,
                    |c: Company| c.community_validation.reputation_score >= min_score,
                ).len() as int,
            ),
            forall|i: int| 0 <= i < r@.len()
                ==> (#[trigger] r@[i]).community_validation.reputation_score >= min_score
                    && (exists|w: int| 0 <= w < s.companies.items@.len()
                        && s.companies.items@[w] == *r@[i]),
    {
        let ghost eligible = |c: Company| c.community_validation.reputation_score >= min_score;
        let cap: usize = match limit {
            Some(l) => l as usize,
            None => 50,
        };
        let items = &s.companies.items;
        let mut picked: Vec<&Company> = Vec::new();
        let mut i: usize = 0;
        proof {
            assert(items@.subrange(0, 0) =~= Seq::<Company>::empty());
        }
        while i < items.len()
            invariant
                items@ == s.companies.items@,
                i <= items@.len(),
                picked@.len() == filtered(items@.subrange(0, i as int), eligible).len(),
                forall|q: int| 0 <= q < picked@.len()
                    ==> (#[trigger] picked@[q]).community_validation.reputation_score >= min_score
                        && (exists|w: int| 0 <= w < items@.len() && items@[w] == *picked@[q]),
                eligible == (|c: Company| c.community_validation.reputation_score >= min_score),
            decreases items@.len() - i,
        {
            if items[i].community_validation.reputation_score >= min_score {
                picked.push(&items[i]);
            }
            i = i + 1;
            proof {
                let prefix = items@.subrange(0, i as int);
                assert(prefix.drop_last() =~= items@.subrange(0, i - 1));
                assert(prefix.last() == items@[i - 1]);
            }
        }
        proof {
            assert(items@.subrange(0, items@.len() as int) =~= items@);
        }
        let ghost picked_view = picked@;
        let sorted = sort_companies_desc(picked);
        proof {
            broadcast use vstd::seq_lib::group_to_multiset_ensures;
            picked_view.to_multiset_ensures();
            assert forall|q: int| 0 <= q < sorted@.len()
                implies (#[trigger] sorted@[q]).community_validation.reputation_score >= min_score
                    && (exists|w: int| 0 <= w < s.companies.items@.len()
                        && s.companies.items@[w] == *sorted@[q]) by {
                assert(picked_view.to_multiset().count(sorted@[q]) > 0);
                assert(picked_view.contains(sorted@[q]));
                let a = choose|a: int| 0 <= a < picked_view.len()
                    && picked_view[a] == sorted@[q];
                assert(picked_view[a].community_validation.reputation_score >= min_score);
                let w = choose|w: int| 0 <= w < s.companies.items@.len()
                    && s.companies.items@[w] == *picked_view[a];
                assert(s.companies.items@[w] == *sorted@[q]);
            }
        }
        let mut out: Vec<&Company> = Vec::new();
        let mut j: usize = 0;
        while j < sorted.len() && j < cap
            invariant
                j <= sorted@.len(),
                j <= cap,
                out@ == sorted@.subrange(0, j as int),
                sorted@.len() == picked_view.len(),
                picked_view.len() == filtered(
                    s.companies.items@,
                    |c: Company| c.community_validation.reputation_score >= min_score,
                ).len(),
                forall|a: int, b: int| 0 <= a < b < sorted@.len()
                    ==> sorted@[a].community_validation.reputation_score
                        >= sorted@[b].community_validation.reputation_score,
                forall|q: int| 0 <= q < sorted@.len()
                    ==> (#[trigger] sorted@[q]).community_validation.reputation_score >= min_score
                        && (exists|w: int| 0 <= w < s.companies.items@.len()
                            && s.companies.items@[w] == *sorted@[q]),
            decreases sorted@.len() - j,
        {
            out.push(sorted[j]);
            j = j + 1;
            proof {
                assert(out@ =~= sorted@.subrange(0, j as int));
            }
        }
        out
    }

    /// The top companies by reputation, as leaderboard entries, highest
    /// first, at most `limit` of them (20 when unspecified).
    pub fn get_reputation_leaderboard(s: &StorageManager, limit: Option<u32>) -> (r: Vec<
        ReputationLeaderboard,
    >)
        requires
            s.wf(),
        ensures
            forall|i: int, j: int| 0 <= i < j < r@.len()
                ==> r@[i].reputation_score >= r@[j].reputation_score,
            r@.len() == spec_min_len(
                match limit {
                    Some(l) => l as int,
                    None => 20,
                },
                s.companies.items@.len() as int,
            ),
            forall|i: int| 0 <= i < r@.len()
                ==> exists|q: int| 0 <= q < s.companies.items@.len()
                    && (#[trigger] r@[i]).company_id@ == s.companies.items@[q].id@
                    && r@[i].company_name@ == s.companies.items@[q].basic_info.name@
                    && r@[i].reputation_score
                        == s.companies.items@[q].community_validation.reputation_score
                    && r@[i].reputation_staked
                        == s.companies.items@[q].community_validation.reputation_staked,
    {
        let cap: u32 = match limit {
            Some(l) => l,
            None => 20,
        };
        let sorted = Self::get_companies_by_reputation(s, 0, Some(cap));
        proof {
            lemma_filtered_everything(s.companies.items@);
            assert forall|q: int| 0 <= q < sorted@.len()
                implies exists|w: int| 0 <= w < s.companies.items@.len()
                    && s.companies.items@[w] == *(#[trigger] sorted@[q]) by {
                assert(sorted@[q].community_validation.reputation_score >= 0);
            }
        }
        let mut out: Vec<ReputationLeaderboard> = Vec::new();
        let mut j: usize = 0;
        while j < sorted.len()
            invariant
                j <= sorted@.len(),
                out@.len() == j,
                forall|a: int, b: int| 0 <= a < b < sorted@.len()
                    ==> sorted@[a].community_validation.reputation_score
                        >= sorted@[b].community_validation.reputation_score,
                forall|q: int| 0 <= q < sorted@.len()
                    ==> exists|w: int| 0 <= w < s.companies.items@.len()
                        && s.companies.items@[w] == *(#[trigger] sorted@[q]),
                forall|a: int| 0 <= a < j
                    ==> (#[trigger] out@[a]).company_id@ == sorted@[a].id@
                        && out@[a].company_name@ == sorted@[a].basic_info.name@
                        && out@[a].reputation_score
                            == sorted@[a].community_validation.reputation_score
                        && out@[a].reputation_staked
                            == sorted@[a].community_validation.reputation_staked,
            decreases sorted@.len() - j,
        {
            let c = sorted[j];
            out.push(ReputationLeaderboard {
                company_id: c.id.clone(),
                company_name: c.basic_info.name.clone(),
                reputation_score: c.community_validation.reputation_score,
                reputation_staked: c.community_validation.reputation_staked,
            });
            j = j + 1;
        }
        proof {
            assert forall|i: int| 0 <= i < out@.len()
                implies exists|q: int| 0 <= q < s.companies.items@.len()
                    && (#[trigger] out@[i]).company_id@ == s.companies.items@[q].id@
                    && out@[i].company_name@ == s.companies.items@[q].basic_info.name@
                    && out@[i].reputation_score
                        == s.companies.items@[q].community_validation.reputation_score
                    && out@[i].reputation_staked
                        == s.companies.items@[q].community_validation.reputation_staked by {
                let w = choose|w: int| 0 <= w < s.companies.items@.len()
                    && s.companies.items@[w] == *sorted@[i];
                assert(out@[i].company_id@ == s.companies.items@[w].id@);
            }
        }
        out
    }

    /// Every endorsement a given company has made, paired with the endorsed
    /// company's identifier.
    pub fn get_endorsements_by_company(s: &StorageManager, endorser_company_id: String) -> (r:
        RegistryResult<Vec<(String, Endorsement)>>)
        ensures
            r matches Ok(v) && v@.len() == total_endorsements_by(
                s.companies.items@,
                endorser_company_id@,
            ) && (forall|i: int| 0 <= i < v@.len()
                ==> (#[trigger] v@[i]).1.endorser_company_id@ == endorser_company_id@),
    {
        let ghost by_e = |e: Endorsement| e.endorser_company_id@ == endorser_company_id@;
        let items = &s.companies.items;
        let mut out: Vec<(String, Endorsement)> = Vec::new();
        let mut i: usize = 0;
        proof {
            assert(items@.subrange(0, 0) =~= Seq::<Company>::empty());
        }
        while i < items.len()
            invariant
                items@ == s.companies.items@,
                i <= items@.len(),
                out@.len() == total_endorsements_by(
                    items@.subrange(0, i as int),
                    endorser_company_id@,
                ),
                forall|q: int| 0 <= q < out@.len()
                    ==> (#[trigger] out@[q]).1.endorser_company_id@ == endorser_company_id@,
                by_e == (|e: Endorsement| e.endorser_company_id@ == endorser_company_id@),
            decreases items@.len() - i,
        {
            let es = &items[i].community_validation.peer_endorsements;
            let ghost out_base = out@.len() as int;
            let mut j: usize = 0;
            proof {
                assert(es@.subrange(0, 0) =~= Seq::<Endorsement>::empty());
            }
            while j < es.len()
                invariant
                    i < items@.len(),
                    items@ == s.companies.items@,
                    es@ == items@[i as int].community_validation.peer_endorsements@,
                    j <= es@.len(),
                    out@.len() == out_base + filtered(es@.subrange(0, j as int), by_e).len(),
                    forall|q: int| 0 <= q < out@.len()
                        ==> (#[trigger] out@[q]).1.endorser_company_id@ == endorser_company_id@,
                    by_e == (|e: Endorsement| e.endorser_company_id@ == endorser_company_id@),
                decreases es@.len() - j,
            {
                if str_eq(es[j].endorser_company_id.as_str(), endorser_company_id.as_str()) {
                    out.push((items[i].id.clone(), es[j].clone()));
                }
                j = j + 1;
                proof {
                    let prefix = es@.subrange(0, j as int);
                    assert(prefix.drop_last() =~= es@.subrange(0, j - 1));
                    assert(prefix.last() == es@[j - 1]);
                }
            }
            proof {
                assert(es@.subrange(0, es@.len() as int) =~= es@);
            }
            i = i + 1;
            proof {
                let prefix = items@.subrange(0, i as int);
                assert(prefix.drop_last() =~= items@.subrange(0, i - 1));
                assert(prefix.last() == items@[i - 1]);
            }
        }
        proof {
            assert(items@.subrange(0, items@.len() as int) =~= items@);
        }
        Ok(out)
    }

    /// Every vouch a given principal has made, paired with the vouched-for
    /// company's identifier.
    pub fn get_vouches_by_principal(s: &StorageManager, voucher_principal: Principal) -> (r: Vec<
        (String, Vouch),
    >)
        ensures
            r@.len() == total_vouches_by_exact(s.companies.items@, voucher_principal),
            forall|i: int| 0 <= i < r@.len()
                ==> (#[trigger] r@[i]).1.voucher_principal == voucher_principal,
    {
        let ghost by_p = |v: Vouch| v.voucher_principal == voucher_principal;
        let items = &s.companies.items;
        let mut out: Vec<(String, Vouch)> = Vec::new();
        let mut i: usize = 0;
        proof {
            assert(items@.subrange(0, 0) =~= Seq::<Company>::empty());
        }
        while i < items.len()
            invariant
                items@ == s.companies.items@,
                i <= items@.len(),
                out@.len() == total_vouches_by_exact(
                    items@.subrange(0, i as int),
                    voucher_principal,
                ),
                forall|q: int| 0 <= q < out@.len()
                    ==> (#[trigger] out@[q]).1.voucher_principal == voucher_principal,
                by_p == (|v: Vouch| v.voucher_principal == voucher_principal),
            decreases items@.len() - i,
        {
            let vs = &items[i].community_validation.community_vouches;
            let ghost out_base = out@.len() as int;
            let mut j: usize = 0;
            proof {
                assert(vs@.subrange(0, 0) =~= Seq::<Vouch>::empty());
            }
            while j < vs.len()
                invariant
                    i < items@.len(),
                    items@ == s.companies.items@,
                    vs@ == items@[i as int].community_validation.community_vouches@,
                    j <= vs@.len(),
                    out@.len() == out_base + filtered(vs@.subrange(0, j as int), by_p).len(),
                    forall|q: int| 0 <= q < out@.len()
                        ==> (#[trigger] out@[q]).1.voucher_principal == voucher_principal,
                    by_p == (|v: Vouch| v.voucher_principal == voucher_principal),
                decreases vs@.len() - j,
            {
                if vs[j].voucher_principal == voucher_principal {
                    out.push((items[i].id.clone(), vs[j].clone()));
                }
                j = j + 1;
                proof {
                    let prefix = vs@.subrange(0, j as int);
                    assert(prefix.drop_last() =~= vs@.subrange(0, j - 1));
                    assert(prefix.last() == vs@[j - 1]);
                }
            }
            proof {
                assert(vs@.subrange(0, vs@.len() as int) =~= vs@);
            }
            i = i + 1;
            proof {
                let prefix = items@.subrange(0, i as int);
                assert(prefix.drop_last() =~= items@.subrange(0, i - 1));
                assert(prefix.last() == items@[i - 1]);
            }
        }
        proof {
            assert(items@.subrange(0, items@.len() as int) =~= items@);
        }
        out
    }

    /// Every testimonial written by a given author, paired with the
    /// company's identifier.
    pub fn get_testimonials_by_author(s: &StorageManager, author_name: String) -> (r: Vec<
        (String, Testimonial),
    >)
        ensures
            r@.len() == total_testimonials_by(s.companies.items@, author_name@),
            forall|i: int| 0 <= i < r@.len()
                ==> (#[trigger] r@[i]).1.author_name@ == author_name@,
    {
        let ghost by_author = |t: Testimonial| t.author_name@ == author_name@;
        let items = &s.companies.items;
        let mut out: Vec<(String, Testimonial)> = Vec::new();
        let mut i: usize = 0;
        proof {
            assert(items@.subrange(0, 0) =~= Seq::<Company>::empty());
        }
        while i < items.len()
            invariant
                items@ == s.companies.items@,
                i <= items@.len(),
                out@.len() == total_testimonials_by(items@.subrange(0, i as int), author_name@),
                forall|q: int| 0 <= q < out@.len()
                    ==> (#[trigger] out@[q]).1.author_name@ == author_name@,
                by_author == (|t: Testimonial| t.author_name@ == author_name@),
            decreases items@.len() - i,
        {
            let ts = &items[i].community_validation.employee_testimonials;
            let ghost out_base = out@.len() as int;
            let mut j: usize = 0;
            proof {
                assert(ts@.subrange(0, 0) =~= Seq::<Testimonial>::empty());
            }
            while j < ts.len()
                invariant
                    i < items@.len(),
                    items@ == s.companies.items@,
                    ts@ == items@[i as int].community_validation.employee_testimonials@,
                    j <= ts@.len(),
                    out@.len() == out_base + filtered(ts@.subrange(0, j as int), by_author).len(),
                    forall|q: int| 0 <= q < out@.len()
                        ==> (#[trigger] out@[q]).1.author_name@ == author_name@,
                    by_author == (|t: Testimonial| t.author_name@ == author_name@),
                decreases ts@.len() - j,
            {
                if str_eq(ts[j].author_name.as_str(), author_name.as_str()) {
                    out.push((items[i].id.clone(), ts[j].clone()));
                }
                j = j + 1;
                proof {
                    let prefix = ts@.subrange(0, j as int);
                    assert(prefix.drop_last() =~= ts@.subrange(0, j - 1));
                    assert(prefix.last() == ts@[j - 1]);
                }
            }
            proof {
                assert(ts@.subrange(0, ts@.len() as int) =~= ts@);
            }
            i = i + 1;
            proof {
                let prefix = items@.subrange(0, i as int);
                assert(prefix.drop_last() =~= items@.subrange(0, i - 1));
                assert(prefix.last() == items@[i - 1]);
            }
        }
        proof {
            assert(items@.subrange(0, items@.len() as int) =~= items@);
        }
        out
    }

    /// Whether an endorsement by one company of another would currently be
    /// accepted: the endorser needs at least 10 reputation and must not
    /// already endorse the target.
    pub fn validate_endorsement_eligibility(
        s: &StorageManager,
        endorser_company_id: String,
        target_company_id: String,
    ) -> (r: RegistryResult<bool>)
        requires
            s.wf(),
        ensures
            match r {
                Ok(b) => s.company_of(endorser_company_id@) is Some && b == (
                    s.company_of(endorser_company_id@).unwrap().community_validation
                        .reputation_score >= 10
                        && !already_endorsed(*s, endorser_company_id@, target_company_id@)
                ),
                Err(e) => e == RegistryError::CompanyNotFound
                    && s.company_of(endorser_company_id@) is None,
            },
    {
        let endorser_rep: u32 = match s.get_company(endorser_company_id.as_str()) {
            None => {
                return Err(RegistryError::CompanyNotFound);
            },
            Some(e) => e.community_validation.reputation_score,
        };
        if endorser_rep < 10 {
            return Ok(false);
        }
        match s.get_company(target_company_id.as_str()) {
            None => Ok(true),
            Some(t) => {
                let es = &t.community_validation.peer_endorsements;
                let mut j: usize = 0;
                while j < es.len()
                    invariant
                        es@ == t.community_validation.peer_endorsements@,
                        s.company_of(endorser_company_id@) is Some,
                        s.company_of(endorser_company_id@).unwrap().community_validation
                            .reputation_score >= 10,
                        s.company_of(target_company_id@) == Some(*t),
                        j <= es@.len(),
                        forall|q: int| 0 <= q < j
                            ==> (#[trigger] es@[q]).endorser_company_id@ != endorser_company_id@,
                    decreases es@.len() - j,
                {
                    if str_eq(es[j].endorser_company_id.as_str(), endorser_company_id.as_str()) {
                        proof {
                            assert((#[trigger] t.community_validation.peer_endorsements@[
                                j as int
                            ]).endorser_company_id@ == endorser_company_id@);
                            assert(already_endorsed(*s, endorser_company_id@, target_company_id@));
                        }
                        return Ok(false);
                    }
                    j = j + 1;
                }
                proof {
                    assert(!already_endorsed(*s, endorser_company_id@, target_company_id@));
                }
                Ok(true)
            },
        }
    }
}

/// The target company exists and already carries an endorsement from the
/// endorser.
pub open spec fn already_endorsed(
    s: StorageManager,
    endorser_id: Seq<char>,
    target_id: Seq<char>,
) -> bool {
    match s.company_of(target_id) {
        Some(t) => exists|j: int| 0 <= j < t.community_validation.peer_endorsements@.len()
            && (#[trigger] t.community_validation.peer_endorsements@[j]).endorser_company_id@
                == endorser_id,
        None => false,
    }
}

// ---------------------------------------------------------------------------
// Fraud heuristics and the integrity gate
// ---------------------------------------------------------------------------

/// The start of the trailing hour before `now`.
pub open spec fn hour_start(now: u64) -> u64 {
    if now >= 3_600_000_000_000 {
        (now - 3_600_000_000_000) as u64
    } else {
        0
    }
}

/// How many endorsements were created inside the trailing hour.
pub open spec fn rapid_endorsement_count(es: Seq<Endorsement>, now: u64) -> int {
    filtered(es, |e: Endorsement| e.timestamp > hour_start(now)).len() as int
}

/// Testimonials by one author within one company.
pub open spec fn testimonials_by_author_in(ts: Seq<Testimonial>, author: Seq<char>) -> int {
    filtered(ts, |t: Testimonial| t.author_name@ == author).len() as int
}

/// Testimonials by one author across every other company.
pub open spec fn author_reuse_count(cs: Seq<Company>, self_id: Seq<char>, author: Seq<char>) -> int
    decreases cs.len(),
{
    if cs.len() == 0 {
        0
    } else {
        author_reuse_count(cs.drop_last(), self_id, author) + (
            if cs.last().id@ != self_id {
                testimonials_by_author_in(
                    cs.last().community_validation.employee_testimonials@,
                    author,
                )
            } else {
                0
            }
        )
    }
}

/// Whether the endorser company in turn carries an endorsement from
/// `self_id` (an endorsement circle).
pub open spec fn is_mutual(s: StorageManager, self_id: Seq<char>, endorser_id: Seq<char>) -> bool {
    match s.company_of(endorser_id) {
        Some(ec) => exists|j: int| 0 <= j < ec.community_validation.peer_endorsements@.len()
            && (#[trigger] ec.community_validation.peer_endorsements@[j]).endorser_company_id@
                == self_id,
        None => false,
    }
}

/// How many fraud patterns stand against a company: one for a rapid
/// endorsement burst, one per testimonial whose author is reused across
/// more than two other companies, and one per mutual endorsement.
pub open spec fn fraud_pattern_count(s: StorageManager, c: Company, now: u64) -> int {
    (if rapid_endorsement_count(c.community_validation.peer_endorsements@, now) > 5 {
        1int
    } else {
        0int
    }) + filtered(
        c.community_validation.employee_testimonials@,
        |t: Testimonial| author_reuse_count(s.companies.items@, c.id@, t.author_name@) > 2,
    ).len() + filtered(
        c.community_validation.peer_endorsements@,
        |e: Endorsement| is_mutual(s, c.id@, e.endorser_company_id@),
    ).len()
}

/// Endorsements whose endorser has reputation under 20.
pub open spec fn low_rep_endorsement_count(s: StorageManager, es: Seq<Endorsement>) -> int {
    filtered(
        es,
        |e: Endorsement| match s.company_of(e.endorser_company_id@) {
            Some(cc) => cc.community_validation.reputation_score < 20,
            None => false,
        },
    ).len() as int
}

/// The integrity deductions: 5 per unverified testimonial, 10 per
/// low-reputation endorser, 15 per fraud pattern.  The integrity score is
/// 100 minus this, and staking is blocked when it falls under 50.
pub open spec fn integrity_deductions(s: StorageManager, c: Company, now: u64) -> int {
    5 * filtered(c.community_validation.employee_testimonials@, |t: Testimonial| !t.verified).len()
        + 10 * low_rep_endorsement_count(s, c.community_validation.peer_endorsements@)
        + 15 * fraud_pattern_count(s, c, now)
}

/// Counts recent endorsements, capped just past the burst threshold.
fn count_recent_endorsements(es: &Vec<Endorsement>, now: u64) -> (r: usize)
    ensures
        r as int == (if rapid_endorsement_count(es@, now) <= 6 {
            rapid_endorsement_count(es@, now)
        } else {
            6int
        }),
{
    let ghost recent = |e: Endorsement| e.timestamp > hour_start(now);
    let threshold: u64 = if now >= 3_600_000_000_000 { now - 3_600_000_000_000 } else { 0 };
    let mut cnt: usize = 0;
    let mut i: usize = 0;
    proof {
        assert(es@.subrange(0, 0) =~= Seq::<Endorsement>::empty());
    }
    while i < es.len()
        invariant
            i <= es@.len(),
            threshold == hour_start(now),
            cnt <= 6,
            cnt as int == (if filtered(es@.subrange(0, i as int), recent).len() <= 6 {
                filtered(es@.subrange(0, i as int), recent).len() as int
            } else {
                6int
            }),
            recent == (|e: Endorsement| e.timestamp > hour_start(now)),
        decreases es@.len() - i,
    {
        if es[i].timestamp > threshold && cnt < 6 {
            cnt = cnt + 1;
        }
        i = i + 1;
        proof {
            let prefix = es@.subrange(0, i as int);
            assert(prefix.drop_last() =~= es@.subrange(0, i - 1));
            assert(prefix.last() == es@[i - 1]);
        }
    }
    proof {
        assert(es@.subrange(0, es@.len() as int) =~= es@);
    }
    cnt
}

/// Counts one author's testimonials across other companies, capped just
/// past the reuse threshold.
fn author_reuse_capped(items: &Vec<Company>, self_id: &str, author: &str) -> (r: usize)
    ensures
        r as int == (if author_reuse_count(items@, self_id@, author@) <= 3 {
            author_reuse_count(items@, self_id@, author@)
        } else {
            3int
        }),
{
    let ghost by_author = |t: Testimonial| t.author_name@ == author@;
    let mut cnt: usize = 0;
    let mut i: usize = 0;
    proof {
        assert(items@.subrange(0, 0) =~= Seq::<Company>::empty());
    }
    while i < items.len()
        invariant
            i <= items@.len(),
            cnt <= 3,
            cnt as int == (if author_reuse_count(items@.subrange(0, i as int), self_id@, author@) <= 3 {
                author_reuse_count(items@.subrange(0, i as int), self_id@, author@)
            } else {
                3int
            }),
            by_author == (|t: Testimonial| t.author_name@ == author@),
        decreases items@.len() - i,
    {
        if !str_eq(items[i].id.as_str(), self_id) {
            let ts = &items[i].community_validation.employee_testimonials;
            let mut inner: usize = 0;
            let mut j: usize = 0;
            proof {
                assert(ts@.subrange(0, 0) =~= Seq::<Testimonial>::empty());
            }
            while j < ts.len()
                invariant
                    i < items@.len(),
                    ts@ == items@[i as int].community_validation.employee_testimonials@,
                    j <= ts@.len(),
                    inner == filtered(ts@.subrange(0, j as int), by_author).len(),
                    inner <= j,
                    by_author == (|t: Testimonial| t.author_name@ == author@),
                decreases ts@.len() - j,
            {
                if str_eq(ts[j].author_name.as_str(), author) {
                    inner = inner + 1;
                }
                j = j + 1;
                proof {
                    let prefix = ts@.subrange(0, j as int);
                    assert(prefix.drop_last() =~= ts@.subrange(0, j - 1));
                    assert(prefix.last() == ts@[j - 1]);
                }
            }
            proof {
                assert(ts@.subrange(0, ts@.len() as int) =~= ts@);
                assert(inner == testimonials_by_author_in(
                    items@[i as int].community_validation.employee_testimonials@,
                    author@,
                ));
            }
            let mut k: usize = 0;
            while k < inner
                invariant
                    k <= inner,
                    cnt <= 3,
                    cnt as int == (if author_reuse_count(
                        items@.subrange(0, i as int),
                        self_id@,
                        author@,
                    ) + k <= 3 {
                        author_reuse_count(items@.subrange(0, i as int), self_id@, author@) + k
                    } else {
                        3int
                    }),
                decreases inner - k,
            {
                if cnt < 3 {
                    cnt = cnt + 1;
                }
                k = k + 1;
            }
        }
        i = i + 1;
        proof {
            let prefix = items@.subrange(0, i as int);
            assert(prefix.drop_last() =~= items@.subrange(0, i - 1));
            assert(prefix.last() == items@[i - 1]);
        }
    }
    proof {
        assert(items@.subrange(0, items@.len() as int) =~= items@);
    }
    cnt
}

/// Whether an endorsement circle exists with the named endorser.
fn mutual_check(s: &StorageManager, self_id: &str, endorser_id: &str) -> (b: bool)
    requires
        s.wf(),
    ensures
        b == is_mutual(*s, self_id@, endorser_id@),
{
    match s.get_company(endorser_id) {
        None => false,
        Some(ec) => {
            let es = &ec.community_validation.peer_endorsements;
            let mut j: usize = 0;
            while j < es.len()
                invariant
                    es@ == ec.community_validation.peer_endorsements@,
                    s.company_of(endorser_id@) == Some(*ec),
                    j <= es@.len(),
                    forall|q: int| 0 <= q < j
                        ==> (#[trigger] es@[q]).endorser_company_id@ != self_id@,
                decreases es@.len() - j,
            {
                if str_eq(es[j].endorser_company_id.as_str(), self_id) {
                    proof {
                        assert((#[trigger] ec.community_validation.peer_endorsements@[j as int])
                            .endorser_company_id@ == self_id@);
                    }
                    return true;
                }
                j = j + 1;
            }
            false
        },
    }
}

impl CommunityValidationManager {
    /// Scans one company for suspicious validation patterns: endorsement
    /// bursts, testimonial authors reused across other companies, and
    /// mutual-endorsement circles.  Returns one description per finding.
    #[verifier::rlimit(100)]
    pub fn detect_validation_fraud(s: &mut StorageManager, company_id: String, now: u64) -> (r:
        RegistryResult<Vec<String>>)
        requires
            old(s).wf(),
        ensures
            final(s).wf(),
            *final(s) == (StorageManager {
                security_events: final(s).security_events,
                community_alerts: final(s).community_alerts,
                ..*old(s)
            }),
            match r {
                Ok(v) => old(s).company_of(company_id@) matches Some(c)
                    && v@.len() == fraud_pattern_count(*old(s), c, now),
                Err(e) => e == RegistryError::CompanyNotFound
                    && old(s).company_of(company_id@) is None,
            },
    {
        let i = match s.companies.index_of(company_id.as_str()) {
            None => {
                return Err(RegistryError::CompanyNotFound);
            },
            Some(i) => i,
        };
        proof {
            s.companies.lemma_lookup_at(i as int);
        }
        let ghost c = s.companies.items@[i as int];
        let ghost reused = |t: Testimonial| author_reuse_count(
            old(s).companies.items@,
            c.id@,
            t.author_name@,
        ) > 2;
        let ghost mutual = |e: Endorsement| is_mutual(*old(s), c.id@, e.endorser_company_id@);
        let mut patterns: Vec<String> = Vec::new();

        // Rapid endorsement bursts inside the trailing hour.
        let recent = count_recent_endorsements(
            &s.companies.items[i].community_validation.peer_endorsements,
            now,
        );
        let rapid = recent > 5;
        if rapid {
            patterns.push(String::from_str(
                "rapid endorsement creation: more than 5 endorsements in the last hour",
            ));
        }
        let ghost base: int = if rapid { 1 } else { 0 };

        // Testimonial authors reused across other companies.
        let n_ts = s.companies.items[i].community_validation.employee_testimonials.len();
        let mut t: usize = 0;
        proof {
            assert(c.community_validation.employee_testimonials@.subrange(0, 0)
                =~= Seq::<Testimonial>::empty());
        }
        while t < n_ts
            invariant
                *s == *old(s),
                s.wf(),
                i < s.companies.items@.len(),
                c == s.companies.items@[i as int],
                old(s).company_of(company_id@) == Some(c),
                n_ts == c.community_validation.employee_testimonials@.len(),
                t <= n_ts,
                patterns@.len() == base + filtered(
                    c.community_validation.employee_testimonials@.subrange(0, t as int),
                    reused,
                ).len(),
                base == (if rapid_endorsement_count(
                    c.community_validation.peer_endorsements@,
                    now,
                ) > 5 { 1int } else { 0int }),
                reused == (|t2: Testimonial| author_reuse_count(
                    old(s).companies.items@,
                    c.id@,
                    t2.author_name@,
                ) > 2),
            decreases n_ts - t,
        {
            let author = s.companies.items[i].community_validation.employee_testimonials[t]
                .author_name.clone();
            let reuse = author_reuse_capped(&s.companies.items, company_id.as_str(), author.as_str());
            proof {
                assert(c.id@ == company_id@);
            }
            if reuse > 2 {
                patterns.push(String::from_str(
                    "testimonial author reused across more than two other companies",
                ));
            }
            t = t + 1;
            proof {
                let prefix = c.community_validation.employee_testimonials@.subrange(0, t as int);
                assert(prefix.drop_last()
                    =~= c.community_validation.employee_testimonials@.subrange(0, t - 1));
                assert(prefix.last() == c.community_validation.employee_testimonials@[t - 1]);
            }
        }
        proof {
            assert(c.community_validation.employee_testimonials@.subrange(
                0,
                c.community_validation.employee_testimonials@.len() as int,
            ) =~= c.community_validation.employee_testimonials@);
        }

        // Mutual endorsement circles.
        let n_es = s.companies.items[i].community_validation.peer_endorsements.len();
        let mut e: usize = 0;
        let ghost after_ts = patterns@.len() as int;
        proof {
            assert(c.community_validation.peer_endorsements@.subrange(0, 0)
                =~= Seq::<Endorsement>::empty());
        }
        while e < n_es
            invariant
                *s == *old(s),
                s.wf(),
                i < s.companies.items@.len(),
                c == s.companies.items@[i as int],
                old(s).company_of(company_id@) == Some(c),
                n_es == c.community_validation.peer_endorsements@.len(),
                e <= n_es,
                patterns@.len() == after_ts + filtered(
                    c.community_validation.peer_endorsements@.subrange(0, e as int),
                    mutual,
                ).len(),
                mutual == (|e2: Endorsement| is_mutual(*old(s), c.id@, e2.endorser_company_id@)),
            decreases n_es - e,
        {
            let endorser = s.companies.items[i].community_validation.peer_endorsements[e]
                .endorser_company_id.clone();
            let circle = mutual_check(s, company_id.as_str(), endorser.as_str());
            proof {
                assert(c.id@ == company_id@);
            }
            if circle {
                patterns.push(String::from_str("mutual endorsement circle detected"));
            }
            e = e + 1;
            proof {
                let prefix = c.community_validation.peer_endorsements@.subrange(0, e as int);
                assert(prefix.drop_last()
                    =~= c.community_validation.peer_endorsements@.subrange(0, e - 1));
                assert(prefix.last() == c.community_validation.peer_endorsements@[e - 1]);
            }
        }
        proof {
            assert(c.community_validation.peer_endorsements@.subrange(
                0,
                c.community_validation.peer_endorsements@.len() as int,
            ) =~= c.community_validation.peer_endorsements@);
        }

        if rapid {
            let _ = MonitoringSystem::log_security_event(
                s,
                SecurityEventType::SuspiciousInput,
                None,
                SecuritySeverity::Medium,
                String::from_str("suspicious endorsement pattern detected"),
                None,
                None,
                now,
            );
        }
        Ok(patterns)
    }

    /// The community-driven integrity check: deductions for unverified
    /// testimonials, low-reputation endorsers and detected fraud patterns
    /// must not push the integrity score under 50.
    pub fn validate_reputation_integrity(s: &mut StorageManager, company_id: String, now: u64) -> (r:
        RegistryResult<bool>)
        requires
            old(s).wf(),
        ensures
            final(s).wf(),
            *final(s) == (StorageManager {
                security_events: final(s).security_events,
                community_alerts: final(s).community_alerts,
                ..*old(s)
            }),
            match r {
                Ok(b) => old(s).company_of(company_id@) matches Some(c)
                    && b == (integrity_deductions(*old(s), c, now) <= 50),
                Err(e) => e == RegistryError::CompanyNotFound
                    && old(s).company_of(company_id@) is None,
            },
    {
        let i = match s.companies.index_of(company_id.as_str()) {
            None => {
                return Err(RegistryError::CompanyNotFound);
            },
            Some(i) => i,
        };
        proof {
            s.companies.lemma_lookup_at(i as int);
        }
        let ghost c = s.companies.items@[i as int];
        let ghost unverified = |t: Testimonial| !t.verified;
        let ghost low_rep = |e2: Endorsement| match old(s).company_of(e2.endorser_company_id@) {
            Some(cc) => cc.community_validation.reputation_score < 20,
            None => false,
        };

        // Unverified testimonials, capped past the decision boundary.
        let ts = &s.companies.items[i].community_validation.employee_testimonials;
        let mut u: usize = 0;
        let mut j: usize = 0;
        proof {
            assert(ts@.subrange(0, 0) =~= Seq::<Testimonial>::empty());
        }
        while j < ts.len()
            invariant
                ts@ == c.community_validation.employee_testimonials@,
                j <= ts@.len(),
                u <= 11,
                u as int == (if filtered(ts@.subrange(0, j as int), unverified).len() <= 11 {
                    filtered(ts@.subrange(0, j as int), unverified).len() as int
                } else {
                    11int
                }),
                unverified == (|t: Testimonial| !t.verified),
            decreases ts@.len() - j,
        {
            if !ts[j].verified && u < 11 {
                u = u + 1;
            }
            j = j + 1;
            proof {
                let prefix = ts@.subrange(0, j as int);
                assert(prefix.drop_last() =~= ts@.subrange(0, j - 1));
                assert(prefix.last() == ts@[j - 1]);
            }
        }
        proof {
            assert(ts@.subrange(0, ts@.len() as int) =~= ts@);
        }

        // Low-reputation endorsers, capped past the boundary.
        let es = &s.companies.items[i].community_validation.peer_endorsements;
        let mut l: usize = 0;
        let mut k: usize = 0;
        proof {
            assert(es@.subrange(0, 0) =~= Seq::<Endorsement>::empty());
        }
        while k < es.len()
            invariant
                s.wf(),
                *s == *old(s),
                es@ == c.community_validation.peer_endorsements@,
                k <= es@.len(),
                l <= 6,
                l as int == (if filtered(es@.subrange(0, k as int), low_rep).len() <= 6 {
                    filtered(es@.subrange(0, k as int), low_rep).len() as int
                } else {
                    6int
                }),
                low_rep == (|e2: Endorsement| match old(s).company_of(e2.endorser_company_id@) {
                    Some(cc) => cc.community_validation.reputation_score < 20,
                    None => false,
                }),
            decreases es@.len() - k,
        {
            let is_low = match s.get_company(es[k].endorser_company_id.as_str()) {
                Some(cc) => cc.community_validation.reputation_score < 20,
                None => false,
            };
            if is_low && l < 6 {
                l = l + 1;
            }
            k = k + 1;
            proof {
                let prefix = es@.subrange(0, k as int);
                assert(prefix.drop_last() =~= es@.subrange(0, k - 1));
                assert(prefix.last() == es@[k - 1]);
            }
        }
        proof {
            assert(es@.subrange(0, es@.len() as int) =~= es@);
        }

        // Fraud patterns, capped past the boundary.
        let patterns = match Self::detect_validation_fraud(s, company_id.clone(), now) {
            Ok(v) => v,
            Err(e2) => {
                return Err(e2);
            },
        };
        let f: usize = if patterns.len() > 4 { 4 } else { patterns.len() };
        let ghost fc = fraud_pattern_count(*old(s), c, now);

        let deductions: usize = 5 * u + 10 * l + 15 * f;
        let valid = deductions <= 50;
        proof {
            let du = filtered(c.community_validation.employee_testimonials@, unverified).len()
                as int;
            let dl = filtered(c.community_validation.peer_endorsements@, low_rep).len() as int;
            assert(dl == low_rep_endorsement_count(
                *old(s),
                c.community_validation.peer_endorsements@,
            ));
            assert(integrity_deductions(*old(s), c, now) == 5 * du + 10 * dl + 15 * fc);
            if u as int == du && l as int == dl && f as int == fc {
                assert(valid == (integrity_deductions(*old(s), c, now) <= 50));
            } else {
                assert(u as int == 11 || l as int == 6 || f as int == 4 || fc > 4);
                assert(deductions > 50 || 15 * fc > 50);
                assert(5 * du + 10 * dl + 15 * fc > 50);
            }
        }
        if !valid {
            let _ = MonitoringSystem::log_security_event(
                s,
                SecurityEventType::SuspiciousInput,
                None,
                SecuritySeverity::Medium,
                String::from_str("reputation integrity concern detected"),
                None,
                None,
                now,
            );
        }
        Ok(valid)
    }

    /// Stakes reputation only after the integrity check passes.  A passing
    /// stake raises the staked amount and recomputes the full reputation
    /// formula (scores are never left stale after a mutation).
    pub fn stake_reputation_with_validation(
        s: &mut StorageManager,
        company_id: String,
        amount: u64,
        caller_principal: Principal,
        now: u64,
    ) -> (r: RegistryResult<()>)
        requires
            old(s).wf(),
        ensures
            final(s).wf(),
            community_frame(*old(s), *final(s)),
            match r {
                Err(RegistryError::CompanyNotFound) => old(s).company_of(company_id@) is None
                    && final(s).companies == old(s).companies,
                Err(RegistryError::Unauthorized) => old(s).company_of(company_id@)
                    matches Some(c) && c.created_by != caller_principal
                    && final(s).companies == old(s).companies,
                Err(RegistryError::IntegrityCheckFailed) => old(s).company_of(company_id@)
                    matches Some(c) && c.created_by == caller_principal
                    && integrity_deductions(*old(s), c, now) > 50
                    && final(s).companies == old(s).companies
                    // A blocked stake is never silent.
                    && (final(s).security_events.lookup(
                        "evt_"@ + crate::text::decimal_seq(now as nat),
                    ) matches Some(e) && e.severity == SecuritySeverity::High),
                Ok(()) => {
                    &&& old(s).company_of(company_id@) matches Some(c)
                        && c.created_by == caller_principal
                        && integrity_deductions(*old(s), c, now) <= 50
                    &&& final(s).company_of(company_id@) is Some
                    &&& stake_added(
                        old(s).company_of(company_id@).unwrap(),
                        final(s).company_of(company_id@).unwrap(),
                        amount,
                        now,
                    )
                    &&& (forall|k: Seq<char>| k != company_id@
                        ==> #[trigger] final(s).company_of(k) == old(s).company_of(k))
                },
                Err(_) => false,
            },
    {
        let authorized: bool = match s.get_company(company_id.as_str()) {
            None => {
                return Err(RegistryError::CompanyNotFound);
            },
            Some(c) => c.created_by == caller_principal,
        };
        if !authorized {
            return Err(RegistryError::Unauthorized);
        }
        let valid = match Self::validate_reputation_integrity(s, company_id.clone(), now) {
            Ok(v) => v,
            Err(e2) => {
                return Err(e2);
            },
        };
        if !valid {
            let _ = MonitoringSystem::log_security_event(
                s,
                SecurityEventType::SuspiciousInput,
                Some(caller_principal),
                SecuritySeverity::High,
                String::from_str("reputation staking blocked by the integrity check"),
                None,
                None,
                now,
            );
            return Err(RegistryError::IntegrityCheckFailed);
        }
        let i = match s.companies.index_of(company_id.as_str()) {
            None => {
                return Err(RegistryError::CompanyNotFound);
            },
            Some(i) => i,
        };
        proof {
            s.companies.lemma_lookup_at(i as int);
        }
        let mut c = s.companies.remove_at(i);
        c.community_validation.reputation_staked = sat_add(
            c.community_validation.reputation_staked,
            amount,
        );
        Self::update_reputation_score(&mut c);
        c.updated_at = now;
        s.companies.insert_at(i, c);
        Ok(())
    }
}

/// Endorsements by one company within one company's record.
pub open spec fn endorsements_by_in(es: Seq<Endorsement>, endorser_id: Seq<char>) -> int {
    filtered(es, |e: Endorsement| e.endorser_company_id@ == endorser_id).len() as int
}

/// Testimonials by one author across every company.
pub open spec fn total_testimonials_by(cs: Seq<Company>, author: Seq<char>) -> int
    decreases cs.len(),
{
    if cs.len() == 0 {
        0
    } else {
        total_testimonials_by(cs.drop_last(), author) + testimonials_by_author_in(
            cs.last().community_validation.employee_testimonials@,
            author,
        )
    }
}

/// Vouches by one principal across every company (the uncapped total).
pub open spec fn total_vouches_by_exact(cs: Seq<Company>, p: Principal) -> int
    decreases cs.len(),
{
    if cs.len() == 0 {
        0
    } else {
        total_vouches_by_exact(cs.drop_last(), p) + vouches_by_in(
            cs.last().community_validation.community_vouches@,
            p,
        )
    }
}

/// Endorsements by one company across every company.
pub open spec fn total_endorsements_by(cs: Seq<Company>, endorser_id: Seq<char>) -> int
    decreases cs.len(),
{
    if cs.len() == 0 {
        0
    } else {
        total_endorsements_by(cs.drop_last(), endorser_id) + endorsements_by_in(
            cs.last().community_validation.peer_endorsements@,
            endorser_id,
        )
    }
}

/// Every company clears the zero reputation floor, so filtering on it
/// keeps the whole sequence.
pub proof fn lemma_filtered_everything(cs: Seq<Company>)
    ensures
        filtered(cs, |c: Company| c.community_validation.reputation_score >= 0) == cs,
    decreases cs.len(),
{
    if cs.len() > 0 {
        lemma_filtered_everything(cs.drop_last());
        assert(filtered(cs, |c: Company| c.community_validation.reputation_score >= 0) =~= cs);
    } else {
        assert(filtered(cs, |c: Company| c.community_validation.reputation_score >= 0) =~= cs);
    }
}

/// The smaller of a cap and an available count.
pub open spec fn spec_min_len(cap: int, avail: int) -> int {
    if avail < cap { avail } else { cap }
}

/// A length clamped to the 32-bit counter range.
fn len_clamped(n: usize) -> (r: u32)
    ensures
        r as int == clamp_u32(n as int),
{
    if n as u64 > u32::MAX as u64 {
        u32::MAX
    } else {
        n as u32
    }
}

/// Selection sort of company references by reputation score, descending.
fn sort_companies_desc<'a>(input: Vec<&'a Company>) -> (r: Vec<&'a Company>)
    ensures
        r@.to_multiset() == input@.to_multiset(),
        r@.len() == input@.len(),
        forall|i: int, j: int| 0 <= i < j < r@.len()
            ==> r@[i].community_validation.reputation_score
                >= r@[j].community_validation.reputation_score,
        forall|i: int| 0 <= i < r@.len() ==> input@.to_multiset().count(#[trigger] r@[i]) > 0,
    decreases input@.len(),
{
    broadcast use vstd::seq_lib::group_to_multiset_ensures;

    let ghost orig = input@;
    let mut rest = input;
    let mut out: Vec<&Company> = Vec::new();
    while rest.len() > 0
        invariant
            out@.to_multiset().add(rest@.to_multiset()) == orig.to_multiset(),
            forall|i: int, j: int| 0 <= i < j < out@.len()
                ==> out@[i].community_validation.reputation_score
                    >= out@[j].community_validation.reputation_score,
            forall|i: int, j: int| 0 <= i < out@.len() && 0 <= j < rest@.len()
                ==> (#[trigger] out@[i]).community_validation.reputation_score
                    >= (#[trigger] rest@[j]).community_validation.reputation_score,
        decreases rest@.len(),
    {
        let mut best: usize = 0;
        let mut m: usize = 1;
        while m < rest.len()
            invariant
                rest@.len() > 0,
                best < rest@.len(),
                m <= rest@.len(),
                forall|q: int| 0 <= q < m
                    ==> rest@[best as int].community_validation.reputation_score
                        >= (#[trigger] rest@[q]).community_validation.reputation_score,
            decreases rest@.len() - m,
        {
            if rest[m].community_validation.reputation_score
                > rest[best].community_validation.reputation_score {
                best = m;
            }
            m = m + 1;
        }
        let ghost rest_before = rest@;
        let ghost out_before = out@;
        let picked = rest.remove(best);
        out.push(picked);
        proof {
            rest_before.to_multiset_ensures();
            out_before.to_multiset_ensures();
            assert(rest_before.remove(best as int).to_multiset()
                =~= rest_before.to_multiset().remove(picked));
            assert(out_before.push(picked).to_multiset()
                =~= out_before.to_multiset().insert(picked));
            assert(rest_before.to_multiset().count(picked) > 0);
            assert(out@.to_multiset().add(rest@.to_multiset()) =~= orig.to_multiset());
            assert forall|j: int| 0 <= j < rest@.len()
                implies picked.community_validation.reputation_score
                    >= (#[trigger] rest@[j]).community_validation.reputation_score by {
                let q0: int = if j < best { j } else { j + 1 };
                assert(rest@[j] == rest_before[q0]);
            }
        }
    }
    proof {
        out@.to_multiset_ensures();
        orig.to_multiset_ensures();
        rest@.to_multiset_ensures();
        assert(rest@.to_multiset().len() == 0);
        assert(out@.to_multiset() =~= orig.to_multiset());
        assert(out@.len() == out@.to_multiset().len());
        assert forall|i: int| 0 <= i < out@.len()
            implies orig.to_multiset().count(#[trigger] out@[i]) > 0 by {
            assert(out@.contains(out@[i]));
            assert(out@.to_multiset().count(out@[i]) > 0);
        }
    }
    out
}

} // verus!
