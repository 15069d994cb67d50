//! Verification logic: the composite verification score, per-chain address
//! format validation, input sanitization, URL checks, and the off-chain
//! challenge flows (GitHub organization, domain ownership, social-media
//! proofs, proof re-checks).

use vstd::prelude::*;
use crate::storage::{filtered, spec_min_nat, StorageManager};
use crate::text::{decimal_seq, decimal_string, hex_seq, hex_string};
use crate::types::{
    DnsTxtOutcome, DomainVerificationChallenge, GithubCheckOutcome, Principal, ProofProbeOutcome,
    ProofCheckResult, ProofStatus, ReportType, VerificationMethod, VerificationProof,
    VerificationResult, VerificationType, Web3Identity, sat_add,
};
use crate::ratelimit::{rl_admit, rl_next};
use crate::storage::{VERIFICATION_RATE_MAX, VERIFICATION_RATE_WINDOW_NS};
use crate::text::{
    chars_of, is_ascii_alphanumeric_char, is_ascii_digit_char, is_hex_digit_char, lower_code,
    lower_code_of, eq_ci, occurs_in, occurs_in_ci, str_contains, str_contains_ci, str_eq_ci,
    starts_with,
};
use crate::types::{Company, RegistryError, RegistryResult, TeamMember, VerificationStatus};

verus! {

/// Off-chain verification logic and the scoring rule it feeds.
pub struct VerificationManager;

// ---------------------------------------------------------------------------
// Verification score
// ---------------------------------------------------------------------------

/// Profile-completeness contribution: 5 points for each of name,
/// description, website and focus areas being present (at most 20).
pub open spec fn basic_info_points(c: Company) -> int {
    (if c.basic_info.name@.len() > 0 { 5int } else { 0int })
        + (if c.basic_info.description@.len() > 0 { 5int } else { 0int })
        + (if c.basic_info.website@.len() > 0 { 5int } else { 0int })
        + (if c.basic_info.focus_areas@.len() > 0 { 5int } else { 0int })
}

/// Off-chain identity contribution: 10 points each for a GitHub
/// organization, a verified domain, and verified social status (at most 30).
pub open spec fn identity_points(c: Company) -> int {
    (if c.web3_identity.github_org is Some { 10int } else { 0int })
        + (if c.web3_identity.domain_verified { 10int } else { 0int })
        + (if c.web3_identity.social_verification_status == VerificationStatus::Verified {
            10int
        } else {
            0int
        })
}

/// Chain-presence contribution: 5 points for each nonempty category
/// (at most 40).
pub open spec fn chain_points(c: Company) -> int {
    (if c.cross_chain_presence.ethereum_contracts@.len() > 0 { 5int } else { 0int })
        + (if c.cross_chain_presence.bitcoin_addresses@.len() > 0 { 5int } else { 0int })
        + (if c.cross_chain_presence.icp_canisters@.len() > 0 { 5int } else { 0int })
        + (if c.cross_chain_presence.solana_addresses@.len() > 0 { 5int } else { 0int })
        + (if c.cross_chain_presence.sui_addresses@.len() > 0 { 5int } else { 0int })
        + (if c.cross_chain_presence.ton_addresses@.len() > 0 { 5int } else { 0int })
        + (if c.cross_chain_presence.treasury_wallets@.len() > 0 { 5int } else { 0int })
        + (if c.cross_chain_presence.token_contracts@.len() > 0 { 5int } else { 0int })
}

/// How many team members are verified.
pub open spec fn verified_team_count(c: Company) -> int {
    filtered(c.team_members@, |m: TeamMember| m.verified).len() as int
}

/// Team contribution: 3 points per verified member, at most 15.
pub open spec fn team_points(c: Company) -> int {
    if 3 * verified_team_count(c) < 15 {
        3 * verified_team_count(c)
    } else {
        15
    }
}

/// Community contribution: a tenth of the reputation score, at most 10.
pub open spec fn community_points(c: Company) -> int {
    if c.community_validation.reputation_score / 10 < 10 {
        c.community_validation.reputation_score as int / 10
    } else {
        10
    }
}

/// The composite verification score: the weighted signals above, clamped to
/// the 0 to 100 band.
pub open spec fn verification_score_spec(c: Company) -> int {
    let total = basic_info_points(c) + identity_points(c) + chain_points(c) + team_points(c)
        + community_points(c);
    if total < 100 {
        total
    } else {
        100
    }
}

/// Counts verified team members, capped at 5 (the cap where the team
/// contribution saturates).
fn count_verified_members(members: &Vec<TeamMember>) -> (cnt: u32)
    ensures
        cnt as nat == spec_min_nat(filtered(members@, |m: TeamMember| m.verified).len(), 5),
{
    let ghost verified = |m: TeamMember| m.verified;
    let mut cnt: u32 = 0;
    let mut i: usize = 0;
    proof {
        assert(members@.subrange(0, 0) =~= Seq::<TeamMember>::empty());
    }
    while i < members.len()
        invariant
            i <= members@.len(),
            cnt as nat == spec_min_nat(filtered(members@.subrange(0, i as int), verified).len(), 5),
            verified == (|m: TeamMember| m.verified),
        decreases members@.len() - i,
    {
        if members[i].verified && cnt < 5 {
            cnt = cnt + 1;
        }
        i = i + 1;
        proof {
            let prefix = members@.subrange(0, i as int);
            assert(prefix.drop_last() =~= members@.subrange(0, i - 1));
            assert(prefix.last() == members@[i - 1]);
        }
    }
    proof {
        assert(members@.subrange(0, members@.len() as int) =~= members@);
    }
    cnt
}

/// Executable profile-completeness contribution.
fn basic_points_of(c: &Company) -> (r: u32)
    ensures
        r == basic_info_points(*c),
{
    let mut basic: u32 = 0;
    if !c.basic_info.name.as_str().is_empty() {
        basic = basic + 5;
    }
    if !c.basic_info.description.as_str().is_empty() {
        basic = basic + 5;
    }
    if !c.basic_info.website.as_str().is_empty() {
        basic = basic + 5;
    }
    if !c.basic_info.focus_areas.is_empty() {
        basic = basic + 5;
    }
    basic
}

/// Executable off-chain identity contribution.
fn identity_points_of(c: &Company) -> (r: u32)
    ensures
        r == identity_points(*c),
{
    let mut identity: u32 = 0;
    if c.web3_identity.github_org.is_some() {
        identity = identity + 10;
    }
    if c.web3_identity.domain_verified {
        identity = identity + 10;
    }
    if c.web3_identity.social_verification_status == VerificationStatus::Verified {
        identity = identity + 10;
    }
    identity
}

/// Executable chain-presence contribution.
fn chain_points_of(c: &Company) -> (r: u32)
    ensures
        r == chain_points(*c),
{
    let mut chains: u32 = 0;
    if !c.cross_chain_presence.ethereum_contracts.is_empty() {
        chains = chains + 5;
    }
    if !c.cross_chain_presence.bitcoin_addresses.is_empty() {
        chains = chains + 5;
    }
    if !c.cross_chain_presence.icp_canisters.is_empty() {
        chains = chains + 5;
    }
    if !c.cross_chain_presence.solana_addresses.is_empty() {
        chains = chains + 5;
    }
    if !c.cross_chain_presence.sui_addresses.is_empty() {
        chains = chains + 5;
    }
    if !c.cross_chain_presence.ton_addresses.is_empty() {
        chains = chains + 5;
    }
    if !c.cross_chain_presence.treasury_wallets.is_empty() {
        chains = chains + 5;
    }
    if !c.cross_chain_presence.token_contracts.is_empty() {
        chains = chains + 5;
    }
    chains
}

impl VerificationManager {
    /// Computes the composite verification score of a company.  The result
    /// is always within the 0 to 100 band.
    pub fn calculate_verification_score(company: &Company) -> (score: u32)
        ensures
            score == verification_score_spec(*company),
            score <= 100,
    {
        let basic = basic_points_of(company);
        let identity = identity_points_of(company);
        let chains = chain_points_of(company);

        // Verified team members: 3 points each, at most 15.
        let cnt = count_verified_members(&company.team_members);
        proof {
            assert(3 * cnt == team_points(*company));
        }
        let team: u32 = 3 * cnt;

        // Community reputation contribution, at most 10 points.
        let tenth = company.community_validation.reputation_score / 10;
        let community: u32 = if tenth < 10 { tenth } else { 10 };
        proof {
            assert(community == community_points(*company));
        }

        let mut score: u32 = basic + identity + chains + team + community;
        if score > 100 {
            score = 100;
        }
        score
    }
}

// ---------------------------------------------------------------------------
// Character classes for address grammars
// ---------------------------------------------------------------------------

/// Base58 without 0, O, I and l (Bitcoin legacy body, Solana).
pub open spec fn is_base58_char(c: char) -> bool {
    ('1' <= c && c <= '9') || ('A' <= c && c <= 'H') || ('J' <= c && c <= 'N')
        || ('P' <= c && c <= 'Z') || ('a' <= c && c <= 'k') || ('m' <= c && c <= 'z')
}

/// Lowercase letters and digits (Bech32 body, canister identifiers).
pub open spec fn is_lower_alnum_char(c: char) -> bool {
    ('a' <= c && c <= 'z') || ('0' <= c && c <= '9')
}

/// Base64url characters (friendly TON addresses).
pub open spec fn is_base64url_char(c: char) -> bool {
    ('A' <= c && c <= 'Z') || ('a' <= c && c <= 'z') || ('0' <= c && c <= '9') || c == '_'
        || c == '-'
}

/// Exec range test on characters.
fn ch_between(c: char, lo: char, hi: char) -> (b: bool)
    ensures
        b == (lo <= c && c <= hi),
{
    let u = c as u32;
    (lo as u32) <= u && u <= (hi as u32)
}

fn is_base58(c: char) -> (b: bool)
    ensures
        b == is_base58_char(c),
{
    ch_between(c, '1', '9') || ch_between(c, 'A', 'H') || ch_between(c, 'J', 'N')
        || ch_between(c, 'P', 'Z') || ch_between(c, 'a', 'k') || ch_between(c, 'm', 'z')
}

pub fn is_lower_alnum(c: char) -> (b: bool)
    ensures
        b == is_lower_alnum_char(c),
{
    ch_between(c, 'a', 'z') || ch_between(c, '0', '9')
}

fn is_hex_digit(c: char) -> (b: bool)
    ensures
        b == is_hex_digit_char(c),
{
    ch_between(c, '0', '9') || ch_between(c, 'a', 'f') || ch_between(c, 'A', 'F')
}

fn is_base64url(c: char) -> (b: bool)
    ensures
        b == is_base64url_char(c),
{
    ch_between(c, 'A', 'Z') || ch_between(c, 'a', 'z') || ch_between(c, '0', '9') || c == '_'
        || c == '-'
}

/// The character classes the address grammars are built from.
#[derive(Clone, Copy, PartialEq, Eq, Structural, Debug)]
pub enum CharClass {
    Base58,
    LowerAlnum,
    HexDigit,
    Base64url,
}

/// Whether `c` belongs to the class.
pub open spec fn class_holds(k: CharClass, c: char) -> bool {
    match k {
        CharClass::Base58 => is_base58_char(c),
        CharClass::LowerAlnum => is_lower_alnum_char(c),
        CharClass::HexDigit => is_hex_digit_char(c),
        CharClass::Base64url => is_base64url_char(c),
    }
}

fn char_in_class(k: CharClass, c: char) -> (b: bool)
    ensures
        b == class_holds(k, c),
{
    match k {
        CharClass::Base58 => is_base58(c),
        CharClass::LowerAlnum => is_lower_alnum(c),
        CharClass::HexDigit => is_hex_digit(c),
        CharClass::Base64url => is_base64url(c),
    }
}

/// All characters of `s` from position `from` on belong to the class.
fn all_chars_from(s: &Vec<char>, from: usize, k: CharClass) -> (b: bool)
    ensures
        b == (forall|i: int| from <= i < s@.len() ==> class_holds(k, #[trigger] s@[i])),
{
    let mut i: usize = from;
    if i > s.len() {
        return true;
    }
    while i < s.len()
        invariant
            from <= i <= s@.len(),
            forall|j: int| from <= j < i ==> class_holds(k, #[trigger] s@[j]),
        decreases s@.len() - i,
    {
        if !char_in_class(k, s[i]) {
            return false;
        }
        i = i + 1;
    }
    true
}

// ---------------------------------------------------------------------------
// Address grammars
// ---------------------------------------------------------------------------

/// Legacy Bitcoin: `1` or `3`, then 25 to 34 base58 characters.
pub open spec fn is_bitcoin_legacy(s: Seq<char>) -> bool {
    &&& 26 <= s.len() <= 35
    &&& (s[0] == '1' || s[0] == '3')
    &&& forall|i: int| 1 <= i < s.len() ==> is_base58_char(#[trigger] s[i])
}

/// SegWit Bitcoin: `bc1`, then 39 to 59 lowercase alphanumerics.
pub open spec fn is_bitcoin_segwit(s: Seq<char>) -> bool {
    &&& 42 <= s.len() <= 62
    &&& s[0] == 'b' && s[1] == 'c' && s[2] == '1'
    &&& forall|i: int| 3 <= i < s.len() ==> is_lower_alnum_char(#[trigger] s[i])
}

/// Ethereum: `0x` followed by exactly 40 hexadecimal digits.
pub open spec fn is_ethereum_address(s: Seq<char>) -> bool {
    &&& s.len() == 42
    &&& s[0] == '0' && s[1] == 'x'
    &&& forall|i: int| 2 <= i < s.len() ==> is_hex_digit_char(#[trigger] s[i])
}

/// Solana: 32 to 44 base58 characters.
pub open spec fn is_solana_address(s: Seq<char>) -> bool {
    &&& 32 <= s.len() <= 44
    &&& forall|i: int| 0 <= i < s.len() ==> is_base58_char(#[trigger] s[i])
}

/// Sui: `0x` followed by exactly 64 hexadecimal digits.
pub open spec fn is_sui_address(s: Seq<char>) -> bool {
    &&& s.len() == 66
    &&& s[0] == '0' && s[1] == 'x'
    &&& forall|i: int| 2 <= i < s.len() ==> is_hex_digit_char(#[trigger] s[i])
}

/// Raw TON: `0:` followed by exactly 64 hexadecimal digits.
pub open spec fn is_ton_raw(s: Seq<char>) -> bool {
    &&& s.len() == 66
    &&& s[0] == '0' && s[1] == ':'
    &&& forall|i: int| 2 <= i < s.len() ==> is_hex_digit_char(#[trigger] s[i])
}

/// Friendly TON: `E`, `U`, `k` or `Q`, then 46 to 48 base64url characters.
pub open spec fn is_ton_friendly(s: Seq<char>) -> bool {
    &&& 47 <= s.len() <= 49
    &&& (s[0] == 'E' || s[0] == 'U' || s[0] == 'k' || s[0] == 'Q')
    &&& forall|i: int| 1 <= i < s.len() ==> is_base64url_char(#[trigger] s[i])
}

/// Short principal form: five dash-separated groups of lowercase
/// alphanumerics with lengths 5, 5, 5, 5 and 3.
pub open spec fn is_icp_principal_text(s: Seq<char>) -> bool {
    &&& s.len() == 27
    &&& s[5] == '-' && s[11] == '-' && s[17] == '-' && s[23] == '-'
    &&& forall|i: int| 0 <= i < s.len() && i != 5 && i != 11 && i != 17 && i != 23
        ==> is_lower_alnum_char(#[trigger] s[i])
}

impl VerificationManager {
    /// Accepts legacy and SegWit Bitcoin address formats.
    pub fn validate_bitcoin_address(address: &str) -> (b: bool)
        ensures
            b == (is_bitcoin_legacy(address@) || is_bitcoin_segwit(address@)),
    {
        let s = chars_of(address);
        let legacy = s.len() >= 26 && s.len() <= 35 && (s[0] == '1' || s[0] == '3')
            && all_chars_from(&s, 1, CharClass::Base58);
        if legacy {
            return true;
        }
        let segwit = s.len() >= 42 && s.len() <= 62 && s[0] == 'b' && s[1] == 'c' && s[2] == '1'
            && all_chars_from(&s, 3, CharClass::LowerAlnum);
        segwit
    }

    /// Accepts `0x` plus 40 hexadecimal digits.
    pub fn validate_ethereum_address(address: &str) -> (b: bool)
        ensures
            b == is_ethereum_address(address@),
    {
        let s = chars_of(address);
        s.len() == 42 && s[0] == '0' && s[1] == 'x'
            && all_chars_from(&s, 2, CharClass::HexDigit)
    }

    /// Accepts 32 to 44 base58 characters.
    pub fn validate_solana_address(address: &str) -> (b: bool)
        ensures
            b == is_solana_address(address@),
    {
        let s = chars_of(address);
        s.len() >= 32 && s.len() <= 44
            && all_chars_from(&s, 0, CharClass::Base58)
    }

    /// Accepts `0x` plus 64 hexadecimal digits.
    pub fn validate_sui_address(address: &str) -> (b: bool)
        ensures
            b == is_sui_address(address@),
    {
        let s = chars_of(address);
        s.len() == 66 && s[0] == '0' && s[1] == 'x'
            && all_chars_from(&s, 2, CharClass::HexDigit)
    }

    /// Accepts the raw and the friendly TON address forms.
    pub fn validate_ton_address(address: &str) -> (b: bool)
        ensures
            b == (is_ton_raw(address@) || is_ton_friendly(address@)),
    {
        let s = chars_of(address);
        let raw = s.len() == 66 && s[0] == '0' && s[1] == ':'
            && all_chars_from(&s, 2, CharClass::HexDigit);
        if raw {
            return true;
        }
        let friendly = s.len() >= 47 && s.len() <= 49
            && (s[0] == 'E' || s[0] == 'U' || s[0] == 'k' || s[0] == 'Q')
            && all_chars_from(&s, 1, CharClass::Base64url);
        friendly
    }

    /// Accepts the short dash-separated principal form.
    pub fn validate_icp_principal(principal: &str) -> (b: bool)
        ensures
            b == is_icp_principal_text(principal@),
    {
        let s = chars_of(principal);
        if s.len() != 27 {
            return false;
        }
        if !(s[5] == '-' && s[11] == '-' && s[17] == '-' && s[23] == '-') {
            return false;
        }
        let mut i: usize = 0;
        while i < s.len()
            invariant
                s@ == principal@,
                s@.len() == 27,
                i <= s@.len(),
                forall|j: int| 0 <= j < i && j != 5 && j != 11 && j != 17 && j != 23
                    ==> is_lower_alnum_char(#[trigger] s@[j]),
            decreases s@.len() - i,
        {
            if i != 5 && i != 11 && i != 17 && i != 23 {
                if !is_lower_alnum(s[i]) {
                    return false;
                }
            }
            i = i + 1;
        }
        true
    }

    /// Polygon uses the Ethereum address format.
    pub fn validate_polygon_address(address: &str) -> (b: bool)
        ensures
            b == is_ethereum_address(address@),
    {
        Self::validate_ethereum_address(address)
    }

    /// Validates an address against the format of the named chain; unknown
    /// chain names are rejected.
    pub fn validate_cross_chain_address(chain: &str, address: &str) -> (b: bool)
        ensures
            b == spec_chain_address_valid(chain@, address@),
    {
        if str_eq_ci(chain, "bitcoin") || str_eq_ci(chain, "btc") {
            Self::validate_bitcoin_address(address)
        } else if str_eq_ci(chain, "ethereum") || str_eq_ci(chain, "eth") {
            Self::validate_ethereum_address(address)
        } else if str_eq_ci(chain, "solana") || str_eq_ci(chain, "sol") {
            Self::validate_solana_address(address)
        } else if str_eq_ci(chain, "sui") {
            Self::validate_sui_address(address)
        } else if str_eq_ci(chain, "ton") {
            Self::validate_ton_address(address)
        } else if str_eq_ci(chain, "icp") || str_eq_ci(chain, "internet_computer") {
            Self::validate_icp_principal(address)
        } else if str_eq_ci(chain, "polygon") || str_eq_ci(chain, "matic") {
            Self::validate_polygon_address(address)
        } else {
            false
        }
    }
}

// ---------------------------------------------------------------------------
// Input sanitization
// ---------------------------------------------------------------------------

/// Which characters a sanitizer keeps.
#[derive(Clone, Copy, PartialEq, Eq, Structural, Debug)]
pub enum KeepClass {
    /// URL structure characters.
    Url,
    /// Social handles: alphanumerics, underscore and hyphen.
    Handle,
    /// Challenge text: alphanumerics and light punctuation.
    ChallengeData,
}

pub open spec fn keep_holds(k: KeepClass, c: char) -> bool {
    match k {
        KeepClass::Url => is_ascii_alphanumeric_char(c) || c == '.' || c == '/' || c == ':'
            || c == '-' || c == '_' || c == '?' || c == '=' || c == '&' || c == '#',
        KeepClass::Handle => is_ascii_alphanumeric_char(c) || c == '_' || c == '-',
        KeepClass::ChallengeData => is_ascii_alphanumeric_char(c) || c == ' ' || c == '-'
            || c == ':' || c == '.' || c == '_',
    }
}

fn keep_char(k: KeepClass, c: char) -> (b: bool)
    ensures
        b == keep_holds(k, c),
{
    let structural = match k {
        KeepClass::Url => c == '.' || c == '/' || c == ':' || c == '-' || c == '_' || c == '?'
            || c == '=' || c == '&' || c == '#',
        KeepClass::Handle => c == '_' || c == '-',
        KeepClass::ChallengeData => c == ' ' || c == '-' || c == ':' || c == '.' || c == '_',
    };
    structural || ch_between(c, 'a', 'z') || ch_between(c, 'A', 'Z') || ch_between(c, '0', '9')
}

/// The characters of `s` that the class keeps, in order.
pub open spec fn kept_chars(s: Seq<char>, k: KeepClass) -> Seq<char> {
    filtered(s, |c: char| keep_holds(k, c))
}

/// `s` truncated to at most `n` characters.
pub open spec fn take_at_most(s: Seq<char>, n: int) -> Seq<char> {
    if s.len() <= n {
        s
    } else {
        s.subrange(0, n)
    }
}

/// Keeps the class's characters of `src`, truncated to `max`.
fn sanitize_filtered(src: &str, k: KeepClass, max: usize) -> (r: String)
    ensures
        r@ == take_at_most(kept_chars(src@, k), max as int),
{
    let ghost keep = |c: char| keep_holds(k, c);
    let s = chars_of(src);
    let mut out = String::new();
    let mut cnt: usize = 0;
    let mut i: usize = 0;
    proof {
        assert(s@.subrange(0, 0) =~= Seq::<char>::empty());
        assert(out@ =~= take_at_most(filtered(s@.subrange(0, 0), keep), max as int));
    }
    while i < s.len()
        invariant
            s@ == src@,
            i <= s@.len(),
            cnt == out@.len(),
            cnt <= max,
            out@ == take_at_most(filtered(s@.subrange(0, i as int), keep), max as int),
            keep == (|c: char| keep_holds(k, c)),
        decreases s@.len() - i,
    {
        let ghost before = filtered(s@.subrange(0, i as int), keep);
        let c = s[i];
        if keep_char(k, c) && cnt < max {
            out.append(src.substring_char(i, i + 1));
            cnt = cnt + 1;
            proof {
                assert(src@.subrange(i as int, i + 1) =~= seq![s@[i as int]]);
            }
        }
        i = i + 1;
        proof {
            let prefix = s@.subrange(0, i as int);
            assert(prefix.drop_last() =~= s@.subrange(0, i - 1));
            assert(prefix.last() == s@[i - 1]);
            let after = filtered(prefix, keep);
            if keep(s@[i - 1]) {
                assert(after == before.push(s@[i - 1]));
                if before.len() < max {
                    assert(out@ =~= take_at_most(after, max as int));
                } else {
                    assert(take_at_most(after, max as int) =~= take_at_most(before, max as int));
                }
            } else {
                assert(after == before);
            }
        }
    }
    proof {
        assert(s@.subrange(0, s@.len() as int) =~= s@);
    }
    out
}

/// The position of the first character that is not `@` (the length when all
/// are).
pub open spec fn first_non_at(s: Seq<char>) -> int
    decreases s.len(),
{
    if s.len() == 0 {
        0
    } else if s[0] == '@' {
        1 + first_non_at(s.drop_first())
    } else {
        0
    }
}

proof fn lemma_first_non_at(s: Seq<char>, e: int)
    requires
        0 <= e <= s.len(),
        forall|j: int| 0 <= j < e ==> s[j] == '@',
        e == s.len() || s[e] != '@',
    ensures
        first_non_at(s) == e,
    decreases s.len(),
{
    if s.len() > 0 && s[0] == '@' {
        lemma_first_non_at(s.drop_first(), e - 1);
    }
}

impl VerificationManager {
    /// Strips characters that do not belong in a URL and bounds the length.
    pub fn sanitize_url(url: &str) -> (r: String)
        ensures
            r@ == take_at_most(kept_chars(url@, KeepClass::Url), 500),
    {
        sanitize_filtered(url, KeepClass::Url, 500)
    }

    /// Drops any leading `@`, keeps handle characters, bounds the length.
    pub fn sanitize_social_handle(handle: &str) -> (r: String)
        ensures
            r@ == take_at_most(
                kept_chars(handle@.subrange(first_non_at(handle@), handle@.len() as int),
                KeepClass::Handle),
                50,
            ),
    {
        let s = chars_of(handle);
        let mut a: usize = 0;
        while a < s.len() && s[a] == '@'
            invariant
                s@ == handle@,
                a <= s@.len(),
                forall|j: int| 0 <= j < a ==> s@[j] == '@',
            decreases s@.len() - a,
        {
            a = a + 1;
        }
        proof {
            lemma_first_non_at(handle@, a as int);
        }
        let rest = handle.substring_char(a, s.len());
        sanitize_filtered(rest, KeepClass::Handle, 50)
    }

    /// Keeps plain text characters of challenge data and bounds the length.
    pub fn sanitize_challenge_data(data: &str) -> (r: String)
        ensures
            r@ == take_at_most(kept_chars(data@, KeepClass::ChallengeData), 200),
    {
        sanitize_filtered(data, KeepClass::ChallengeData, 200)
    }
}

// ---------------------------------------------------------------------------
// Secure URL validation and extraction
// ---------------------------------------------------------------------------

pub open spec fn is_host_delim(c: char) -> bool {
    c == '/' || c == '?' || c == '#'
}

/// A character inside the 7-bit ASCII range.
pub open spec fn is_plain_ascii(c: char) -> bool {
    (c as u32) < 128
}

/// The position of the first host delimiter at or after `i` (the length when
/// there is none).
pub open spec fn host_end(s: Seq<char>, i: int) -> int
    decreases s.len() - i,
{
    if i < 0 || i >= s.len() {
        s.len() as int
    } else if is_host_delim(s[i]) {
        i
    } else {
        host_end(s, i + 1)
    }
}

proof fn lemma_host_end(s: Seq<char>, i: int, e: int)
    requires
        0 <= i <= e <= s.len(),
        forall|j: int| i <= j < e ==> !is_host_delim(#[trigger] s[j]),
        e == s.len() || is_host_delim(s[e]),
    ensures
        host_end(s, i) == e,
    decreases e - i,
{
    if i < e {
        lemma_host_end(s, i + 1, e);
    }
}

/// The hostname of an `https://` URL: everything between the scheme and the
/// first `/`, `?` or `#`.
pub open spec fn url_host(s: Seq<char>) -> Seq<char> {
    s.subrange(8, host_end(s, 8))
}

/// A hostname matches an allowed domain when it equals it or ends with
/// a dot followed by it, ignoring ASCII case.
pub open spec fn host_matches_domain(host: Seq<char>, d: Seq<char>) -> bool {
    eq_ci(host, d)
        || (host.len() > d.len() && host[host.len() - d.len() - 1] == '.'
            && eq_ci(host.subrange(host.len() - d.len(), host.len() as int), d))
}

/// The conditions under which a proof URL is accepted for a platform whose
/// allowed domains are `allowed`.
pub open spec fn secure_url_ok(s: Seq<char>, allowed: Seq<Seq<char>>) -> bool {
    &&& starts_with(s, "https://"@)
    &&& s.len() <= 2048
    &&& (forall|j: int| 0 <= j < url_host(s).len() ==> is_plain_ascii(#[trigger] url_host(s)[j]))
    &&& (exists|d: int| 0 <= d < allowed.len() && host_matches_domain(url_host(s), #[trigger] allowed[d]))
    &&& !occurs_in(url_host(s), ".."@)
    &&& !occurs_in(url_host(s), "--"@)
}

/// Whether `host` matches the single domain `d`.
fn host_matches(host: &Vec<char>, d: &str) -> (b: bool)
    ensures
        b == host_matches_domain(host@, d@),
{
    let dc = chars_of(d);
    if host.len() == dc.len() {
        let mut i: usize = 0;
        let mut same = true;
        while i < host.len()
            invariant
                host@.len() == dc@.len(),
                dc@ == d@,
                i <= host@.len(),
                same == (forall|j: int| 0 <= j < i
                    ==> lower_code(#[trigger] host@[j]) == lower_code(d@[j])),
            decreases host@.len() - i,
        {
            if lower_code_of(host[i]) != lower_code_of(dc[i]) {
                same = false;
                proof {
                    assert(!(forall|j: int| 0 <= j < i + 1
                        ==> lower_code(#[trigger] host@[j]) == lower_code(d@[j]))) by {
                        assert(lower_code(host@[i as int]) != lower_code(d@[i as int]));
                    }
                }
            }
            i = i + 1;
        }
        proof {
            if same {
                assert(eq_ci(host@, d@));
            } else {
                assert(!eq_ci(host@, d@));
            }
            assert(!(host@.len() > d@.len()));
        }
        same
    } else if host.len() > dc.len() {
        let base = host.len() - dc.len();
        if host[base - 1] != '.' {
            proof {
                assert(!eq_ci(host@, d@));
            }
            return false;
        }
        let mut k: usize = base;
        while k < host.len()
            invariant
                host@.len() > dc@.len(),
                dc@ == d@,
                base == host@.len() - dc@.len(),
                host@[base - 1] == '.',
                base <= k <= host@.len(),
                forall|j: int| base <= j < k
                    ==> lower_code(#[trigger] host@[j]) == lower_code(d@[j - base]),
            decreases host@.len() - k,
        {
            if lower_code_of(host[k]) != lower_code_of(dc[k - base]) {
                proof {
                    let tail = host@.subrange(base as int, host@.len() as int);
                    assert(tail[k - base] == host@[k as int]);
                    assert(!eq_ci(tail, d@));
                    assert(!eq_ci(host@, d@));
                }
                return false;
            }
            k = k + 1;
        }
        proof {
            let tail = host@.subrange(base as int, host@.len() as int);
            assert forall|j: int| 0 <= j < d@.len()
                implies lower_code(#[trigger] tail[j]) == lower_code(d@[j]) by {
                assert(tail[j] == host@[base + j]);
                assert(lower_code(host@[base + j]) == lower_code(d@[base + j - base]));
            }
            assert(eq_ci(tail, d@));
        }
        true
    } else {
        proof {
            assert(!eq_ci(host@, d@));
            assert(!(host@.len() > d@.len()));
        }
        false
    }
}

impl VerificationManager {
    /// Accepts a proof URL only over HTTPS, within length bounds, with an
    /// all-ASCII hostname from the allowed set and no suspicious hostname
    /// pattern.
    pub fn validate_secure_url(url: &str, allowed_domains: &Vec<&str>) -> (r: RegistryResult<()>)
        ensures
            match r {
                Ok(()) => secure_url_ok(url@, allowed_domains@.map_values(|d: &str| d@)),
                Err(e) => e == RegistryError::InvalidInput
                    && !secure_url_ok(url@, allowed_domains@.map_values(|d: &str| d@)),
            },
    {
        let ghost allowed = allowed_domains@.map_values(|d: &str| d@);
        if !crate::text::str_starts_with(url, "https://") {
            return Err(RegistryError::InvalidInput);
        }
        let s = chars_of(url);
        if s.len() > 2048 {
            return Err(RegistryError::InvalidInput);
        }
        proof {
            reveal_strlit("https://");
            assert(s@.len() >= 8);
        }
        // Find the end of the hostname.
        let mut e: usize = 8;
        while e < s.len() && !(s[e] == '/' || s[e] == '?' || s[e] == '#')
            invariant
                s@ == url@,
                8 <= e <= s@.len(),
                forall|j: int| 8 <= j < e ==> !is_host_delim(#[trigger] s@[j]),
            decreases s@.len() - e,
        {
            e = e + 1;
        }
        proof {
            lemma_host_end(url@, 8, e as int);
        }
        let mut host: Vec<char> = Vec::new();
        let mut i: usize = 8;
        while i < e
            invariant
                s@ == url@,
                8 <= i <= e <= s@.len(),
                host@ == s@.subrange(8, i as int),
            decreases e - i,
        {
            host.push(s[i]);
            i = i + 1;
            proof {
                assert(host@ =~= s@.subrange(8, i as int));
            }
        }
        proof {
            assert(host@ == url_host(url@));
        }
        // The hostname must be plain ASCII.
        let mut j: usize = 0;
        while j < host.len()
            invariant
                host@ == url_host(url@),
                j <= host@.len(),
                forall|q: int| 0 <= q < j ==> is_plain_ascii(#[trigger] host@[q]),
            decreases host@.len() - j,
        {
            if host[j] as u32 >= 128 {
                return Err(RegistryError::InvalidInput);
            }
            j = j + 1;
        }
        // The hostname must belong to the allowed set.
        let mut d: usize = 0;
        let mut matched = false;
        while d < allowed_domains.len() && !matched
            invariant
                host@ == url_host(url@),
                d <= allowed_domains@.len(),
                allowed == allowed_domains@.map_values(|x: &str| x@),
                matched ==> exists|q: int| 0 <= q < allowed.len()
                    && host_matches_domain(host@, allowed[q]),
                !matched ==> forall|q: int| 0 <= q < d
                    ==> !host_matches_domain(host@, #[trigger] allowed[q]),
            decreases allowed_domains@.len() - d,
        {
            if host_matches(&host, allowed_domains[d]) {
                proof {
                    assert(allowed[d as int] == allowed_domains@[d as int]@);
                }
                matched = true;
            }
            d = d + 1;
        }
        if !matched {
            return Err(RegistryError::InvalidInput);
        }
        // Refuse suspicious hostname patterns.
        let dots = chars_of("..");
        let dashes = chars_of("--");
        if crate::text::chars_contain(&host, &dots) {
            return Err(RegistryError::InvalidInput);
        }
        if crate::text::chars_contain(&host, &dashes) {
            return Err(RegistryError::InvalidInput);
        }
        Ok(())
    }

    /// The domain part of an `http://` or `https://` URL (everything after
    /// the scheme, up to the first slash); malformed URLs are rejected.
    pub fn extract_domain_from_url(url: &str) -> (r: RegistryResult<String>)
        ensures
            match r {
                Ok(d) => domain_extractable(url@) && d@ == extracted_domain(url@),
                Err(e) => e == RegistryError::InvalidInput && !domain_extractable(url@),
            },
    {
        let s = chars_of(url);
        let start: usize = if crate::text::str_starts_with(url, "https://") {
            8
        } else if crate::text::str_starts_with(url, "http://") {
            7
        } else {
            proof {
                reveal_strlit("https://");
                reveal_strlit("http://");
            }
            return Err(RegistryError::InvalidInput);
        };
        proof {
            reveal_strlit("https://");
            reveal_strlit("http://");
            assert(s@.len() >= start);
        }
        let mut e: usize = start;
        while e < s.len() && s[e] != '/'
            invariant
                s@ == url@,
                start <= e <= s@.len(),
                forall|j: int| start <= j < e ==> s@[j] != '/',
            decreases s@.len() - e,
        {
            e = e + 1;
        }
        proof {
            lemma_slash_end(url@, start as int, e as int);
        }
        if e == start {
            return Err(RegistryError::InvalidInput);
        }
        let d = url.substring_char(start, e).to_owned();
        Ok(d)
    }

    /// The Twitter username in a profile or status URL: the segment after
    /// the first `twitter.com/` or `x.com/`, up to the next `/` or `?`.
    pub fn extract_twitter_username(url: &str) -> (r: Option<String>)
        ensures
            match r {
                Some(u) => u@.len() > 0 && twitter_capture(url@) == Some(u@),
                None => twitter_capture(url@) is None,
            },
    {
        let s = chars_of(url);
        let lit_tw = chars_of("twitter.com/");
        let lit_x = chars_of("x.com/");
        proof {
            reveal_strlit("twitter.com/");
            reveal_strlit("x.com/");
            assert(lit_tw@.len() == 12);
            assert(lit_x@.len() == 6);
        }
        let p_tw = crate::text::chars_find_first(&s, &lit_tw);
        let p_x = crate::text::chars_find_first(&s, &lit_x);
        proof {
            match p_tw {
                Some(a) => lemma_first_occurrence_is(url@, "twitter.com/"@, a as int),
                None => lemma_first_occurrence_none(url@, "twitter.com/"@),
            }
            match p_x {
                Some(b) => lemma_first_occurrence_is(url@, "x.com/"@, b as int),
                None => lemma_first_occurrence_none(url@, "x.com/"@),
            }
        }
        let slen: usize = s.len();
        let start: usize = match (p_tw, p_x) {
            (None, None) => {
                return None;
            },
            (Some(a), None) => {
                proof {
                    assert(crate::text::occurs_at(s@, lit_tw@, a as int));
                    assert(a + 12 <= slen);
                }
                a + 12
            },
            (None, Some(b)) => {
                proof {
                    assert(crate::text::occurs_at(s@, lit_x@, b as int));
                    assert(b + 6 <= slen);
                }
                b + 6
            },
            (Some(a), Some(b)) => {
                if a <= b {
                    proof {
                        assert(crate::text::occurs_at(s@, lit_tw@, a as int));
                        assert(a + 12 <= slen);
                    }
                    a + 12
                } else {
                    proof {
                        assert(crate::text::occurs_at(s@, lit_x@, b as int));
                        assert(b + 6 <= slen);
                    }
                    b + 6
                }
            },
        };
        let mut e: usize = start;
        while e < s.len() && s[e] != '/' && s[e] != '?'
            invariant
                s@ == url@,
                start <= e <= s@.len(),
                forall|j: int| start <= j < e ==> s@[j] != '/' && s@[j] != '?',
            decreases s@.len() - e,
        {
            e = e + 1;
        }
        proof {
            lemma_capture_end(url@, start as int, e as int);
        }
        if e == start {
            return None;
        }
        Some(url.substring_char(start, e).to_owned())
    }
}

/// Whether a URL has an `http://` or `https://` scheme followed by at least
/// one character before the next slash.
pub open spec fn domain_extractable(s: Seq<char>) -> bool {
    (starts_with(s, "https://"@) && slash_end(s, 8) > 8)
        || (!starts_with(s, "https://"@) && starts_with(s, "http://"@) && slash_end(s, 7) > 7)
}

/// The position of the first `/` at or after `i` (the length when none).
pub open spec fn slash_end(s: Seq<char>, i: int) -> int
    decreases s.len() - i,
{
    if i < 0 || i >= s.len() {
        s.len() as int
    } else if s[i] == '/' {
        i
    } else {
        slash_end(s, i + 1)
    }
}

proof fn lemma_slash_end(s: Seq<char>, i: int, e: int)
    requires
        0 <= i <= e <= s.len(),
        forall|j: int| i <= j < e ==> s[j] != '/',
        e == s.len() || s[e] == '/',
    ensures
        slash_end(s, i) == e,
    decreases e - i,
{
    if i < e {
        lemma_slash_end(s, i + 1, e);
    }
}

/// The domain of a URL accepted by [`domain_extractable`].
pub open spec fn extracted_domain(s: Seq<char>) -> Seq<char> {
    if starts_with(s, "https://"@) {
        s.subrange(8, slash_end(s, 8))
    } else {
        s.subrange(7, slash_end(s, 7))
    }
}

/// The position of the first `/` or `?` at or after `i` (the length when
/// none).
pub open spec fn capture_end(s: Seq<char>, i: int) -> int
    decreases s.len() - i,
{
    if i < 0 || i >= s.len() {
        s.len() as int
    } else if s[i] == '/' || s[i] == '?' {
        i
    } else {
        capture_end(s, i + 1)
    }
}

proof fn lemma_capture_end(s: Seq<char>, i: int, e: int)
    requires
        0 <= i <= e <= s.len(),
        forall|j: int| i <= j < e ==> s[j] != '/' && s[j] != '?',
        e == s.len() || s[e] == '/' || s[e] == '?',
    ensures
        capture_end(s, i) == e,
    decreases e - i,
{
    if i < e {
        lemma_capture_end(s, i + 1, e);
    }
}

/// Where the Twitter literal match starts, which literal matched, and the
/// captured username, when there is one.  The earlier occurrence of
/// `twitter.com/` or `x.com/` wins; ties favour `twitter.com/`.
pub open spec fn twitter_capture(s: Seq<char>) -> Option<Seq<char>> {
    let tw = first_occurrence(s, "twitter.com/"@);
    let x = first_occurrence(s, "x.com/"@);
    let chosen: Option<int> = match (tw, x) {
        (None, None) => None,
        (Some(a), None) => Some(a + 12),
        (None, Some(b)) => Some(b + 6),
        (Some(a), Some(b)) => if a <= b { Some(a + 12) } else { Some(b + 6) },
    };
    match chosen {
        None => None,
        Some(start) => {
            let e = capture_end(s, start);
            if e > start {
                Some(s.subrange(start, e))
            } else {
                None
            }
        },
    }
}

/// The first position at which `n` occurs in `h`, when it occurs.
pub open spec fn first_occurrence(h: Seq<char>, n: Seq<char>) -> Option<int> {
    if occurs_in(h, n) {
        Some(choose|i: int| crate::text::occurs_at(h, n, i)
            && forall|k: int| 0 <= k < i ==> !crate::text::occurs_at(h, n, k))
    } else {
        None
    }
}

/// When `a` is a leftmost occurrence, [`first_occurrence`] picks it.
proof fn lemma_first_occurrence_is(h: Seq<char>, n: Seq<char>, a: int)
    requires
        crate::text::occurs_at(h, n, a),
        forall|k: int| 0 <= k < a ==> !crate::text::occurs_at(h, n, k),
    ensures
        first_occurrence(h, n) == Some(a),
{
    assert(occurs_in(h, n));
    let w = choose|i: int| crate::text::occurs_at(h, n, i)
        && forall|k: int| 0 <= k < i ==> !crate::text::occurs_at(h, n, k);
    assert(w == a) by {
        if w < a {
            assert(!crate::text::occurs_at(h, n, w));
        } else if w > a {
            assert(!crate::text::occurs_at(h, n, a));
        }
    }
}

/// Without an occurrence there is no first one.
proof fn lemma_first_occurrence_none(h: Seq<char>, n: Seq<char>)
    requires
        !occurs_in(h, n),
    ensures
        first_occurrence(h, n) is None,
{
}

impl VerificationManager {
    /// The format rules of the named chain, as human-readable text.
    pub fn get_address_validation_rules(chain: &str) -> (r: String)
    {
        if str_eq_ci(chain, "bitcoin") || str_eq_ci(chain, "btc") {
            String::from_str(
                "Bitcoin addresses are either legacy (starting with 1 or 3, 26 to 35                  characters) or SegWit (starting with bc1, 42 to 62 characters).",
            )
        } else if str_eq_ci(chain, "ethereum") || str_eq_ci(chain, "eth") {
            String::from_str(
                "Ethereum addresses start with 0x followed by exactly 40 hexadecimal                  characters.",
            )
        } else if str_eq_ci(chain, "solana") || str_eq_ci(chain, "sol") {
            String::from_str(
                "Solana addresses are base58 strings of 32 to 44 characters, without 0, O,                  I or l.",
            )
        } else if str_eq_ci(chain, "sui") {
            String::from_str(
                "Sui addresses start with 0x followed by exactly 64 hexadecimal characters.",
            )
        } else if str_eq_ci(chain, "ton") {
            String::from_str(
                "TON addresses are raw (0: followed by 64 hexadecimal characters) or                  friendly (base64url, starting with EQ, UQ or kQ).",
            )
        } else if str_eq_ci(chain, "icp") || str_eq_ci(chain, "internet_computer") {
            String::from_str(
                "Principal identifiers are five dash-separated base32 groups with lengths                  5, 5, 5, 5 and 3.",
            )
        } else if str_eq_ci(chain, "polygon") || str_eq_ci(chain, "matic") {
            String::from_str(
                "Polygon addresses use the Ethereum format: 0x followed by exactly 40                  hexadecimal characters.",
            )
        } else {
            String::from_str("Unsupported chain. Please check the chain name.")
        }
    }
}

/// Which address grammar the named chain demands (chain names are matched
/// ignoring ASCII case; unknown names validate nothing).
pub open spec fn spec_chain_address_valid(chain: Seq<char>, address: Seq<char>) -> bool {
    if eq_ci(chain, "bitcoin"@) || eq_ci(chain, "btc"@) {
        is_bitcoin_legacy(address) || is_bitcoin_segwit(address)
    } else if eq_ci(chain, "ethereum"@) || eq_ci(chain, "eth"@) {
        is_ethereum_address(address)
    } else if eq_ci(chain, "solana"@) || eq_ci(chain, "sol"@) {
        is_solana_address(address)
    } else if eq_ci(chain, "sui"@) {
        is_sui_address(address)
    } else if eq_ci(chain, "ton"@) {
        is_ton_raw(address) || is_ton_friendly(address)
    } else if eq_ci(chain, "icp"@) || eq_ci(chain, "internet_computer"@) {
        is_icp_principal_text(address)
    } else if eq_ci(chain, "polygon"@) || eq_ci(chain, "matic"@) {
        is_ethereum_address(address)
    } else {
        false
    }
}

// ---------------------------------------------------------------------------
// Domain-ownership challenge flow
// ---------------------------------------------------------------------------

/// Domain challenges live for 24 hours.
pub const DOMAIN_CHALLENGE_TTL_NS: u64 = 86_400_000_000_000;

/// The challenge token: a fixed prefix, the issue time, and the hex-rendered
/// entropy the runtime supplied.
pub open spec fn challenge_token_seq(now: u64, entropy: Seq<u8>) -> Seq<char> {
    "icp-registry-"@ + decimal_seq(now as nat) + "-"@ + hex_seq(entropy)
}

/// When an expiry time never wraps: the issue time plus the lifetime,
/// saturating.
pub open spec fn expiry_at(now: u64, ttl: u64) -> u64 {
    if now + ttl <= u64::MAX {
        (now + ttl) as u64
    } else {
        u64::MAX
    }
}

impl VerificationManager {
    /// Renders the single-use secret a domain owner must publish.
    pub fn generate_challenge_token(now: u64, entropy: &Vec<u8>) -> (r: String)
        ensures
            r@ == challenge_token_seq(now, entropy@),
    {
        String::from_str("icp-registry-")
            .concat(decimal_string(now).as_str())
            .concat("-")
            .concat(hex_string(entropy).as_str())
    }

    /// Issues (or re-issues, overwriting) the domain challenge of a company.
    /// Only the owner may issue one, and the company's website must carry an
    /// extractable domain.  The token is derived from the supplied entropy.
    pub fn create_domain_verification_challenge(
        s: &mut StorageManager,
        company_id: String,
        caller_principal: Principal,
        now: u64,
        entropy: &Vec<u8>,
    ) -> (r: RegistryResult<DomainVerificationChallenge>)
        requires
            old(s).wf(),
        ensures
            final(s).wf(),
            match r {
                Ok(ch) => {
                    &&& old(s).company_of(company_id@) matches Some(c)
                        && c.created_by == caller_principal
                        && domain_extractable(c.basic_info.website@)
                        && ch.domain@ == extracted_domain(c.basic_info.website@)
                    &&& ch.company_id@ == company_id@
                    &&& ch.challenge_token@ == challenge_token_seq(now, entropy@)
                    &&& ch.created_at == now
                    &&& ch.expires_at == expiry_at(now, DOMAIN_CHALLENGE_TTL_NS)
                    &&& final(s).domain_challenge_of(company_id@) == Some(ch)
                    &&& (forall|k: Seq<char>| k != company_id@
                        ==> #[trigger] final(s).domain_challenge_of(k)
                            == old(s).domain_challenge_of(k))
                    &&& *final(s) == (StorageManager {
                        domain_challenges: final(s).domain_challenges,
                        ..*old(s)
                    })
                },
                Err(RegistryError::CompanyNotFound) => {
                    &&& old(s).company_of(company_id@) is None
                    &&& *final(s) == *old(s)
                },
                Err(RegistryError::Unauthorized) => {
                    &&& old(s).company_of(company_id@) matches Some(c)
                        && c.created_by != caller_principal
                    &&& *final(s) == *old(s)
                },
                Err(RegistryError::InvalidInput) => {
                    &&& old(s).company_of(company_id@) matches Some(c)
                        && c.created_by == caller_principal
                        && !domain_extractable(c.basic_info.website@)
                    &&& *final(s) == *old(s)
                },
                Err(_) => false,
            },
    {
        let (website, authorized): (String, bool) = match s.get_company(company_id.as_str()) {
            None => {
                return Err(RegistryError::CompanyNotFound);
            },
            Some(c) => (c.basic_info.website.clone(), c.created_by == caller_principal),
        };
        if !authorized {
            return Err(RegistryError::Unauthorized);
        }
        let domain = match Self::extract_domain_from_url(website.as_str()) {
            Ok(d) => d,
            Err(_) => {
                return Err(RegistryError::InvalidInput);
            },
        };
        let challenge_token = Self::generate_challenge_token(now, entropy);
        let expires_at = sat_add(now, DOMAIN_CHALLENGE_TTL_NS);
        let challenge = DomainVerificationChallenge {
            company_id: company_id.clone(),
            domain,
            challenge_token,
            created_at: now,
            expires_at,
        };
        let stored = challenge.clone();
        s.insert_domain_challenge(company_id, stored);
        Ok(challenge)
    }

    /// First half of a domain verification: consumes a rate-limit slot and
    /// hands back the outstanding challenge (so the runtime can query the
    /// domain's TXT records), deleting it when it has already expired.
    pub fn begin_domain_verification(
        s: &mut StorageManager,
        company_id: &str,
        caller_principal: Principal,
        now: u64,
    ) -> (r: RegistryResult<DomainVerificationChallenge>)
        requires
            old(s).wf(),
        ensures
            final(s).wf(),
            final(s).verification_limits.history_of(caller_principal) == rl_next(
                old(s).verification_limits.history_of(caller_principal),
                now,
                VERIFICATION_RATE_WINDOW_NS,
                VERIFICATION_RATE_MAX as nat,
            ),
            match r {
                Ok(ch) => {
                    &&& rl_admit(
                        old(s).verification_limits.history_of(caller_principal),
                        now,
                        VERIFICATION_RATE_WINDOW_NS,
                        VERIFICATION_RATE_MAX as nat,
                    )
                    &&& old(s).domain_challenge_of(company_id@) == Some(ch)
                    &&& now <= ch.expires_at
                    &&& *final(s) == (StorageManager {
                        verification_limits: final(s).verification_limits,
                        ..*old(s)
                    })
                },
                Err(RegistryError::RateLimited) => {
                    &&& !rl_admit(
                        old(s).verification_limits.history_of(caller_principal),
                        now,
                        VERIFICATION_RATE_WINDOW_NS,
                        VERIFICATION_RATE_MAX as nat,
                    )
                    &&& *final(s) == (StorageManager {
                        verification_limits: final(s).verification_limits,
                        ..*old(s)
                    })
                },
                Err(RegistryError::ChallengeNotFound) => {
                    &&& old(s).domain_challenge_of(company_id@) is None
                    &&& *final(s) == (StorageManager {
                        verification_limits: final(s).verification_limits,
                        ..*old(s)
                    })
                },
                Err(RegistryError::ChallengeExpired) => {
                    &&& old(s).domain_challenge_of(company_id@) matches Some(ch)
                        && now > ch.expires_at
                    &&& final(s).domain_challenge_of(company_id@) is None
                    &&& (forall|k: Seq<char>| k != company_id@
                        ==> #[trigger] final(s).domain_challenge_of(k)
                            == old(s).domain_challenge_of(k))
                    &&& *final(s) == (StorageManager {
                        verification_limits: final(s).verification_limits,
                        domain_challenges: final(s).domain_challenges,
                        ..*old(s)
                    })
                },
                Err(_) => false,
            },
    {
        if !s.check_verification_rate_limit(caller_principal, now) {
            return Err(RegistryError::RateLimited);
        }
        let challenge: DomainVerificationChallenge = match s.get_domain_challenge(company_id) {
            None => {
                return Err(RegistryError::ChallengeNotFound);
            },
            Some(ch) => ch.clone(),
        };
        if now > challenge.expires_at {
            let _ = s.remove_domain_challenge(company_id);
            return Err(RegistryError::ChallengeExpired);
        }
        Ok(challenge)
    }
}

/// The full behaviour of completing a domain verification against fetched
/// DNS evidence.  This relation is the contract of
/// [`VerificationManager::complete_domain_verification`], and the challenge
/// laws below are proved of it.
pub open spec fn domain_verification_step(
    pre: StorageManager,
    post: StorageManager,
    company_id: Seq<char>,
    now: u64,
    outcome: DnsTxtOutcome,
    r: RegistryResult<VerificationResult>,
) -> bool {
    match pre.domain_challenge_of(company_id) {
        // A consumed or never-issued challenge cannot be verified.
        None => r == Err::<VerificationResult, RegistryError>(RegistryError::ChallengeNotFound)
            && post == pre,
        Some(ch) => {
            if now > ch.expires_at {
                // Expiry wins over any evidence: the challenge is deleted.
                &&& r == Err::<VerificationResult, RegistryError>(RegistryError::ChallengeExpired)
                &&& post.domain_challenge_of(company_id) is None
                &&& (forall|k: Seq<char>| k != company_id
                    ==> #[trigger] post.domain_challenge_of(k) == pre.domain_challenge_of(k))
                &&& post == (StorageManager { domain_challenges: post.domain_challenges, ..pre })
            } else {
                match outcome {
                    DnsTxtOutcome::Transport => {
                        r == Err::<VerificationResult, RegistryError>(RegistryError::TransportFailed)
                            && post == pre
                    },
                    DnsTxtOutcome::HttpError(_) => {
                        r == Err::<VerificationResult, RegistryError>(
                            RegistryError::ExternalServiceError,
                        ) && post == pre
                    },
                    DnsTxtOutcome::Response(text) => {
                        if occurs_in(text@, ch.challenge_token@) {
                            match pre.company_of(company_id) {
                                None => r == Err::<VerificationResult, RegistryError>(
                                    RegistryError::CompanyNotFound,
                                ) && post == pre,
                                Some(c) => {
                                    // Accepted: entity mutated, score recomputed,
                                    // challenge consumed.
                                    &&& r matches Ok(v) && v.success && v.verified_at == Some(now)
                                    &&& post.domain_challenge_of(company_id) is None
                                    &&& post.company_of(company_id) matches Some(c2)
                                        && c2.web3_identity == (crate::types::Web3Identity {
                                            domain_verified: true,
                                            ..c.web3_identity
                                        })
                                        && c2.verification_score == verification_score_spec(c2)
                                        && c2 == (Company {
                                            web3_identity: c2.web3_identity,
                                            verification_score: c2.verification_score,
                                            updated_at: now,
                                            ..c
                                        })
                                    &&& (forall|k: Seq<char>| k != company_id
                                        ==> #[trigger] post.domain_challenge_of(k)
                                            == pre.domain_challenge_of(k))
                                    &&& (forall|k: Seq<char>| k != company_id
                                        ==> #[trigger] post.company_of(k) == pre.company_of(k))
                                    &&& post == (StorageManager {
                                        domain_challenges: post.domain_challenges,
                                        companies: post.companies,
                                        ..pre
                                    })
                                },
                            }
                        } else {
                            // Evidence checked, secret absent: an unsuccessful
                            // result, and the challenge stays for a retry.
                            r matches Ok(v) && !v.success && v.verified_at is None && post == pre
                        }
                    },
                }
            }
        },
    }
}

impl VerificationManager {
    /// Second half of a domain verification: decides from the DNS TXT
    /// evidence the runtime fetched.  The exact behaviour is
    /// [`domain_verification_step`].
    pub fn complete_domain_verification(
        s: &mut StorageManager,
        company_id: &str,
        now: u64,
        outcome: DnsTxtOutcome,
    ) -> (r: RegistryResult<VerificationResult>)
        requires
            old(s).wf(),
        ensures
            final(s).wf(),
            domain_verification_step(*old(s), *final(s), company_id@, now, outcome, r),
    {
        let challenge: DomainVerificationChallenge = match s.get_domain_challenge(company_id) {
            None => {
                return Err(RegistryError::ChallengeNotFound);
            },
            Some(ch) => ch.clone(),
        };
        if now > challenge.expires_at {
            let _ = s.remove_domain_challenge(company_id);
            return Err(RegistryError::ChallengeExpired);
        }
        let text = match outcome {
            DnsTxtOutcome::Transport => {
                return Err(RegistryError::TransportFailed);
            },
            DnsTxtOutcome::HttpError(_) => {
                return Err(RegistryError::ExternalServiceError);
            },
            DnsTxtOutcome::Response(text) => text,
        };
        if !str_contains(text.as_str(), challenge.challenge_token.as_str()) {
            return Ok(VerificationResult {
                success: false,
                message: String::from_str("challenge token not found in TXT records"),
                verified_at: None,
            });
        }
        let i = match s.companies.index_of(company_id) {
            None => {
                return Err(RegistryError::CompanyNotFound);
            },
            Some(i) => i,
        };
        proof {
            s.companies.lemma_lookup_at(i as int);
        }
        let mut c = s.companies.remove_at(i);
        c.web3_identity.domain_verified = true;
        c.verification_score = Self::calculate_verification_score(&c);
        c.updated_at = now;
        s.companies.insert_at(i, c);
        let _ = s.remove_domain_challenge(company_id);
        Ok(VerificationResult {
            success: true,
            message: String::from_str("domain ownership verified"),
            verified_at: Some(now),
        })
    }
}

// ---------------------------------------------------------------------------
// GitHub organization flow
// ---------------------------------------------------------------------------

/// The behaviour of completing a GitHub organization verification against
/// the fetched API outcome.
pub open spec fn github_verification_step(
    pre: StorageManager,
    post: StorageManager,
    company_id: Seq<char>,
    github_org: Seq<char>,
    now: u64,
    outcome: GithubCheckOutcome,
    r: RegistryResult<VerificationResult>,
) -> bool {
    match outcome {
        GithubCheckOutcome::Transport => {
            r == Err::<VerificationResult, RegistryError>(RegistryError::TransportFailed)
                && post == pre
        },
        GithubCheckOutcome::ApiError(_) => {
            r == Err::<VerificationResult, RegistryError>(RegistryError::ExternalServiceError)
                && post == pre
        },
        GithubCheckOutcome::Malformed => {
            r == Err::<VerificationResult, RegistryError>(RegistryError::ExternalServiceError)
                && post == pre
        },
        GithubCheckOutcome::NotFound => {
            r matches Ok(v) && !v.success && v.verified_at is None && post == pre
        },
        GithubCheckOutcome::Org(data) => {
            if data.public_repos >= 1 {
                match pre.company_of(company_id) {
                    None => r == Err::<VerificationResult, RegistryError>(
                        RegistryError::CompanyNotFound,
                    ) && post == pre,
                    Some(c) => {
                        &&& r matches Ok(v) && v.success && v.verified_at == Some(now)
                        &&& post.company_of(company_id) matches Some(c2)
                            && (c2.web3_identity.github_org matches Some(g) && g@ == github_org)
                            && c2.web3_identity == (Web3Identity {
                                github_org: c2.web3_identity.github_org,
                                social_verification_status: VerificationStatus::Verified,
                                ..c.web3_identity
                            })
                            && c2.verification_score == verification_score_spec(c2)
                            && c2 == (Company {
                                web3_identity: c2.web3_identity,
                                verification_score: c2.verification_score,
                                updated_at: now,
                                ..c
                            })
                        &&& (forall|k: Seq<char>| k != company_id
                            ==> #[trigger] post.company_of(k) == pre.company_of(k))
                        &&& post == (StorageManager { companies: post.companies, ..pre })
                    },
                }
            } else {
                // The organization exists but shows no public activity.
                r matches Ok(v) && !v.success && v.verified_at is None && post == pre
            }
        },
    }
}

impl VerificationManager {
    /// First half of a GitHub organization verification: checks existence,
    /// ownership and the rate limit before any external call is made.
    pub fn begin_github_verification(
        s: &mut StorageManager,
        company_id: &str,
        caller_principal: Principal,
        now: u64,
    ) -> (r: RegistryResult<()>)
        requires
            old(s).wf(),
        ensures
            final(s).wf(),
            match r {
                Ok(()) => {
                    &&& old(s).company_of(company_id@) matches Some(c)
                        && c.created_by == caller_principal
                    &&& rl_admit(
                        old(s).verification_limits.history_of(caller_principal),
                        now,
                        VERIFICATION_RATE_WINDOW_NS,
                        VERIFICATION_RATE_MAX as nat,
                    )
                    &&& final(s).verification_limits.history_of(caller_principal) == rl_next(
                        old(s).verification_limits.history_of(caller_principal),
                        now,
                        VERIFICATION_RATE_WINDOW_NS,
                        VERIFICATION_RATE_MAX as nat,
                    )
                    &&& *final(s) == (StorageManager {
                        verification_limits: final(s).verification_limits,
                        ..*old(s)
                    })
                },
                Err(RegistryError::CompanyNotFound) => {
                    &&& old(s).company_of(company_id@) is None
                    &&& *final(s) == *old(s)
                },
                Err(RegistryError::Unauthorized) => {
                    &&& old(s).company_of(company_id@) matches Some(c)
                        && c.created_by != caller_principal
                    &&& *final(s) == *old(s)
                },
                Err(RegistryError::RateLimited) => {
                    &&& old(s).company_of(company_id@) matches Some(c)
                        && c.created_by == caller_principal
                    &&& !rl_admit(
                        old(s).verification_limits.history_of(caller_principal),
                        now,
                        VERIFICATION_RATE_WINDOW_NS,
                        VERIFICATION_RATE_MAX as nat,
                    )
                    &&& *final(s) == (StorageManager {
                        verification_limits: final(s).verification_limits,
                        ..*old(s)
                    })
                },
                Err(_) => false,
            },
    {
        let authorized: bool = match s.get_company(company_id) {
            None => {
                return Err(RegistryError::CompanyNotFound);
            },
            Some(c) => c.created_by == caller_principal,
        };
        if !authorized {
            return Err(RegistryError::Unauthorized);
        }
        if !s.check_verification_rate_limit(caller_principal, now) {
            return Err(RegistryError::RateLimited);
        }
        Ok(())
    }

    /// Second half of a GitHub organization verification: decides from the
    /// fetched API outcome.  The exact behaviour is
    /// [`github_verification_step`].
    pub fn complete_github_verification(
        s: &mut StorageManager,
        company_id: &str,
        github_org: String,
        now: u64,
        outcome: GithubCheckOutcome,
    ) -> (r: RegistryResult<VerificationResult>)
        requires
            old(s).wf(),
        ensures
            final(s).wf(),
            github_verification_step(
                *old(s),
                *final(s),
                company_id@,
                github_org@,
                now,
                outcome,
                r,
            ),
    {
        let data = match outcome {
            GithubCheckOutcome::Transport => {
                return Err(RegistryError::TransportFailed);
            },
            GithubCheckOutcome::ApiError(_) => {
                return Err(RegistryError::ExternalServiceError);
            },
            GithubCheckOutcome::Malformed => {
                return Err(RegistryError::ExternalServiceError);
            },
            GithubCheckOutcome::NotFound => {
                return Ok(VerificationResult {
                    success: false,
                    message: String::from_str("GitHub organization not found"),
                    verified_at: None,
                });
            },
            GithubCheckOutcome::Org(data) => data,
        };
        if data.public_repos < 1 {
            return Ok(VerificationResult {
                success: false,
                message: String::from_str("GitHub organization has no public repositories"),
                verified_at: None,
            });
        }
        let i = match s.companies.index_of(company_id) {
            None => {
                return Err(RegistryError::CompanyNotFound);
            },
            Some(i) => i,
        };
        proof {
            s.companies.lemma_lookup_at(i as int);
        }
        let mut c = s.companies.remove_at(i);
        c.web3_identity.github_org = Some(github_org);
        c.web3_identity.social_verification_status = VerificationStatus::Verified;
        c.verification_score = Self::calculate_verification_score(&c);
        c.updated_at = now;
        s.companies.insert_at(i, c);
        Ok(VerificationResult {
            success: true,
            message: String::from_str("GitHub organization verified"),
            verified_at: Some(now),
        })
    }
}

// ---------------------------------------------------------------------------
// Social-media proof flow
// ---------------------------------------------------------------------------

/// The platform a request names, matched ignoring ASCII case.
pub open spec fn social_platform_of(platform: Seq<char>) -> Option<VerificationType> {
    if eq_ci(platform, "twitter"@) {
        Some(VerificationType::Twitter)
    } else if eq_ci(platform, "discord"@) {
        Some(VerificationType::Discord)
    } else if eq_ci(platform, "telegram"@) {
        Some(VerificationType::Telegram)
    } else {
        None
    }
}

/// The domains a platform's proof URL may come from.
pub open spec fn platform_domains(vt: VerificationType) -> Seq<Seq<char>> {
    match vt {
        VerificationType::Twitter => seq!["twitter.com"@, "x.com"@, "mobile.twitter.com"@],
        VerificationType::Discord => seq!["discord.gg"@, "discord.com"@, "discordapp.com"@],
        VerificationType::Telegram => seq!["t.me"@, "telegram.me"@],
        _ => Seq::<Seq<char>>::empty(),
    }
}

/// A URL after sanitization.
pub open spec fn sanitized_url_of(u: Seq<char>) -> Seq<char> {
    take_at_most(kept_chars(u, KeepClass::Url), 500)
}

/// A handle after stripping leading `@` and sanitizing.
pub open spec fn sanitized_handle_of(u: Seq<char>) -> Seq<char> {
    take_at_most(kept_chars(u.subrange(first_non_at(u), u.len() as int), KeepClass::Handle), 50)
}

/// The text a social proof must carry, tying it to the company.
pub open spec fn required_proof_text(company_id: Seq<char>) -> Seq<char> {
    "ICP CrossChain Registry - Company ID: "@ + company_id
}

/// The identity fields after a successful social verification: the status
/// is verified, the proof is appended, and the platform's own field is
/// refreshed from the proof URL.
pub open spec fn social_identity_updated(
    w: Web3Identity,
    w2: Web3Identity,
    vt: VerificationType,
    proof_url: Seq<char>,
) -> bool {
    match vt {
        VerificationType::Twitter => {
            &&& w2 == (Web3Identity {
                twitter_handle: w2.twitter_handle,
                social_verification_status: VerificationStatus::Verified,
                verification_proofs: w2.verification_proofs,
                ..w
            })
            &&& match twitter_capture(proof_url) {
                Some(u) => {
                    if sanitized_handle_of(u).len() > 0 {
                        w2.twitter_handle matches Some(h) && h@ == sanitized_handle_of(u)
                    } else {
                        w2.twitter_handle == w.twitter_handle
                    }
                },
                None => w2.twitter_handle == w.twitter_handle,
            }
        },
        VerificationType::Discord => {
            &&& w2 == (Web3Identity {
                discord_server: w2.discord_server,
                social_verification_status: VerificationStatus::Verified,
                verification_proofs: w2.verification_proofs,
                ..w
            })
            &&& w2.discord_server matches Some(d) && d@ == sanitized_url_of(proof_url)
        },
        VerificationType::Telegram => {
            &&& w2 == (Web3Identity {
                telegram_channel: w2.telegram_channel,
                social_verification_status: VerificationStatus::Verified,
                verification_proofs: w2.verification_proofs,
                ..w
            })
            &&& w2.telegram_channel matches Some(t) && t@ == sanitized_url_of(proof_url)
        },
        _ => false,
    }
}

/// The permanent proof record a successful social verification appends.
pub open spec fn social_proof_recorded(
    p: VerificationProof,
    vt: VerificationType,
    proof_url: Seq<char>,
    company_id: Seq<char>,
    now: u64,
) -> bool {
    &&& p.verification_type == vt
    &&& p.proof_url@ == sanitized_url_of(proof_url)
    &&& p.verified_at == now
    &&& p.verification_method == VerificationMethod::ProofVisible
    &&& p.challenge_data matches Some(d) && d@ == take_at_most(
        kept_chars(required_proof_text(company_id), KeepClass::ChallengeData),
        200,
    )
    &&& p.status == ProofStatus::Active
}

impl VerificationManager {
    /// Verifies a social-media account from a publicly visible proof post.
    /// The URL must pass the platform's whitelist; on success a permanent
    /// proof is appended and the identity refreshed.
    #[verifier::rlimit(100)]
    pub fn verify_social_media_with_proof(
        s: &mut StorageManager,
        company_id: &str,
        platform: &str,
        proof_url: &str,
        caller_principal: Principal,
        now: u64,
    ) -> (r: RegistryResult<VerificationResult>)
        requires
            old(s).wf(),
        ensures
            final(s).wf(),
            match r {
                Ok(v) => {
                    &&& old(s).company_of(company_id@) is Some
                    &&& social_platform_of(platform@) is Some
                    &&& final(s).company_of(company_id@) is Some
                    &&& ({
                        let c = old(s).company_of(company_id@).unwrap();
                        let vt = social_platform_of(platform@).unwrap();
                        let c2 = final(s).company_of(company_id@).unwrap();
                        &&& c.created_by == caller_principal
                        &&& secure_url_ok(proof_url@, platform_domains(vt))
                        &&& v.success && v.verified_at == Some(now)
                        &&& c2.web3_identity.verification_proofs@.len()
                            == c.web3_identity.verification_proofs@.len() + 1
                        &&& c2.web3_identity.verification_proofs@.subrange(
                            0,
                            c.web3_identity.verification_proofs@.len() as int,
                        ) == c.web3_identity.verification_proofs@
                        &&& social_proof_recorded(
                            c2.web3_identity.verification_proofs@.last(),
                            vt,
                            proof_url@,
                            company_id@,
                            now,
                        )
                        &&& social_identity_updated(
                            c.web3_identity,
                            c2.web3_identity,
                            vt,
                            proof_url@,
                        )
                        &&& c2.verification_score == verification_score_spec(c2)
                        &&& c2 == (Company {
                            web3_identity: c2.web3_identity,
                            verification_score: c2.verification_score,
                            updated_at: now,
                            ..c
                        })
                    })
                    &&& (forall|k: Seq<char>| k != company_id@
                        ==> #[trigger] final(s).company_of(k) == old(s).company_of(k))
                    &&& *final(s) == (StorageManager { companies: final(s).companies, ..*old(s) })
                },
                Err(RegistryError::CompanyNotFound) => {
                    &&& old(s).company_of(company_id@) is None
                    &&& *final(s) == *old(s)
                },
                Err(RegistryError::Unauthorized) => {
                    &&& old(s).company_of(company_id@) matches Some(c)
                        && c.created_by != caller_principal
                    &&& *final(s) == *old(s)
                },
                Err(RegistryError::InvalidInput) => {
                    &&& old(s).company_of(company_id@) matches Some(c)
                        && c.created_by == caller_principal
                    &&& match social_platform_of(platform@) {
                        None => true,
                        Some(vt) => !secure_url_ok(proof_url@, platform_domains(vt)),
                    }
                    &&& *final(s) == *old(s)
                },
                Err(_) => false,
            },
    {
        let authorized: bool = match s.get_company(company_id) {
            None => {
                return Err(RegistryError::CompanyNotFound);
            },
            Some(c) => c.created_by == caller_principal,
        };
        if !authorized {
            return Err(RegistryError::Unauthorized);
        }

        let verification_type: VerificationType = if str_eq_ci(platform, "twitter") {
            VerificationType::Twitter
        } else if str_eq_ci(platform, "discord") {
            VerificationType::Discord
        } else if str_eq_ci(platform, "telegram") {
            VerificationType::Telegram
        } else {
            return Err(RegistryError::InvalidInput);
        };

        let mut allowed: Vec<&str> = Vec::new();
        match verification_type {
            VerificationType::Twitter => {
                allowed.push("twitter.com");
                allowed.push("x.com");
                allowed.push("mobile.twitter.com");
            },
            VerificationType::Discord => {
                allowed.push("discord.gg");
                allowed.push("discord.com");
                allowed.push("discordapp.com");
            },
            _ => {
                allowed.push("t.me");
                allowed.push("telegram.me");
            },
        }
        proof {
            assert(allowed@.map_values(|d: &str| d@) =~= platform_domains(verification_type));
        }
        if let Err(_) = Self::validate_secure_url(proof_url, &allowed) {
            return Err(RegistryError::InvalidInput);
        }

        // Build the permanent proof record.
        let required = String::from_str("ICP CrossChain Registry - Company ID: ").concat(company_id);
        proof {
            assert(required@ == required_proof_text(company_id@));
        }
        let sanitized_challenge = Self::sanitize_challenge_data(required.as_str());
        let new_proof = VerificationProof {
            verification_type,
            proof_url: Self::sanitize_url(proof_url),
            verified_at: now,
            verification_method: VerificationMethod::ProofVisible,
            challenge_data: Some(sanitized_challenge),
            status: ProofStatus::Active,
        };

        let i = match s.companies.index_of(company_id) {
            None => {
                return Err(RegistryError::CompanyNotFound);
            },
            Some(i) => i,
        };
        proof {
            s.companies.lemma_lookup_at(i as int);
        }
        let ghost c_old = s.companies.items@[i as int];
        let mut c = s.companies.remove_at(i);
        match verification_type {
            VerificationType::Twitter => {
                match Self::extract_twitter_username(proof_url) {
                    Some(username) => {
                        let handle = Self::sanitize_social_handle(username.as_str());
                        if !handle.as_str().is_empty() {
                            c.web3_identity.twitter_handle = Some(handle);
                        }
                    },
                    None => {},
                }
            },
            VerificationType::Discord => {
                c.web3_identity.discord_server = Some(Self::sanitize_url(proof_url));
            },
            _ => {
                c.web3_identity.telegram_channel = Some(Self::sanitize_url(proof_url));
            },
        }
        let ghost proofs_before = c.web3_identity.verification_proofs@;
        c.web3_identity.verification_proofs.push(new_proof);
        c.web3_identity.social_verification_status = VerificationStatus::Verified;
        c.verification_score = Self::calculate_verification_score(&c);
        c.updated_at = now;
        proof {
            assert(proofs_before == c_old.web3_identity.verification_proofs@);
            assert(c.web3_identity.verification_proofs@.subrange(
                0,
                proofs_before.len() as int,
            ) =~= proofs_before);
            assert(social_identity_updated(
                c_old.web3_identity,
                c.web3_identity,
                verification_type,
                proof_url@,
            ));
        }
        s.companies.insert_at(i, c);
        Ok(VerificationResult {
            success: true,
            message: String::from_str(
                "social profile verified with a permanent, publicly visible proof",
            ),
            verified_at: Some(now),
        })
    }

    /// Verifies a social-media account from a manually supplied proof URL:
    /// exactly the checks and effects of the proof-based path.
    pub fn verify_social_media_manual(
        s: &mut StorageManager,
        company_id: &str,
        platform: &str,
        proof_url: &str,
        caller_principal: Principal,
        now: u64,
    ) -> (r: RegistryResult<VerificationResult>)
        requires
            old(s).wf(),
        ensures
            final(s).wf(),
            match r {
                Ok(v) => {
                    &&& old(s).company_of(company_id@) is Some
                    &&& social_platform_of(platform@) is Some
                    &&& final(s).company_of(company_id@) is Some
                    &&& ({
                        let c = old(s).company_of(company_id@).unwrap();
                        let vt = social_platform_of(platform@).unwrap();
                        let c2 = final(s).company_of(company_id@).unwrap();
                        &&& c.created_by == caller_principal
                        &&& secure_url_ok(proof_url@, platform_domains(vt))
                        &&& v.success && v.verified_at == Some(now)
                        &&& c2.web3_identity.verification_proofs@.len()
                            == c.web3_identity.verification_proofs@.len() + 1
                        &&& c2.web3_identity.verification_proofs@.subrange(
                            0,
                            c.web3_identity.verification_proofs@.len() as int,
                        ) == c.web3_identity.verification_proofs@
                        &&& social_proof_recorded(
                            c2.web3_identity.verification_proofs@.last(),
                            vt,
                            proof_url@,
                            company_id@,
                            now,
                        )
                        &&& social_identity_updated(
                            c.web3_identity,
                            c2.web3_identity,
                            vt,
                            proof_url@,
                        )
                        &&& c2.verification_score == verification_score_spec(c2)
                        &&& c2 == (Company {
                            web3_identity: c2.web3_identity,
                            verification_score: c2.verification_score,
                            updated_at: now,
                            ..c
                        })
                    })
                    &&& (forall|k: Seq<char>| k != company_id@
                        ==> #[trigger] final(s).company_of(k) == old(s).company_of(k))
                    &&& *final(s) == (StorageManager { companies: final(s).companies, ..*old(s) })
                },
                Err(RegistryError::CompanyNotFound) => {
                    &&& old(s).company_of(company_id@) is None
                    &&& *final(s) == *old(s)
                },
                Err(RegistryError::Unauthorized) => {
                    &&& old(s).company_of(company_id@) matches Some(c)
                        && c.created_by != caller_principal
                    &&& *final(s) == *old(s)
                },
                Err(RegistryError::InvalidInput) => {
                    &&& old(s).company_of(company_id@) matches Some(c)
                        && c.created_by == caller_principal
                    &&& match social_platform_of(platform@) {
                        None => true,
                        Some(vt) => !secure_url_ok(proof_url@, platform_domains(vt)),
                    }
                    &&& *final(s) == *old(s)
                },
                Err(_) => false,
            },
    {
        Self::verify_social_media_with_proof(s, company_id, platform, proof_url, caller_principal, now)
    }
}

// ---------------------------------------------------------------------------
// Proof existence re-checks
// ---------------------------------------------------------------------------

/// The status a probe's HTTP answer denotes.
pub open spec fn probe_status_of(status: u32) -> ProofStatus {
    if status == 200 {
        ProofStatus::Active
    } else if status == 404 {
        ProofStatus::Removed
    } else {
        ProofStatus::Disputed
    }
}

/// The proofs of a company after every proof with the probed URL was marked
/// removed.
pub open spec fn proofs_with_url_removed(
    proofs: Seq<VerificationProof>,
    url: Seq<char>,
) -> Seq<VerificationProof> {
    Seq::new(
        proofs.len(),
        |j: int|
            if proofs[j].proof_url@ == url {
                VerificationProof { status: ProofStatus::Removed, ..proofs[j] }
            } else {
                proofs[j]
            },
    )
}

impl VerificationManager {
    /// First half of a proof re-check: consumes a general-action rate-limit
    /// slot for the caller before the probe is made.
    pub fn begin_proof_check(s: &mut StorageManager, checker_principal: Principal, now: u64) -> (r:
        RegistryResult<()>)
        requires
            old(s).wf(),
        ensures
            final(s).wf(),
            r is Ok == rl_admit(
                old(s).http_limits.history_of(checker_principal),
                now,
                crate::storage::HTTP_RATE_WINDOW_NS,
                crate::storage::HTTP_RATE_MAX as nat,
            ),
            r matches Err(e) ==> e == RegistryError::RateLimited,
            final(s).http_limits.history_of(checker_principal) == rl_next(
                old(s).http_limits.history_of(checker_principal),
                now,
                crate::storage::HTTP_RATE_WINDOW_NS,
                crate::storage::HTTP_RATE_MAX as nat,
            ),
            *final(s) == (StorageManager { http_limits: final(s).http_limits, ..*old(s) }),
    {
        if s.check_http_rate_limit(checker_principal, now) {
            Ok(())
        } else {
            Err(RegistryError::RateLimited)
        }
    }

    /// Second half of a proof re-check: records what the probe found.  A 404
    /// marks every proof carrying the URL as removed and recomputes the
    /// score; any other completed answer leaves the company untouched.
    #[verifier::rlimit(100)]
    pub fn complete_proof_existence_check(
        s: &mut StorageManager,
        company_id: &str,
        proof_url: &str,
        checker_principal: Principal,
        now: u64,
        outcome: ProofProbeOutcome,
    ) -> (r: RegistryResult<ProofCheckResult>)
        requires
            old(s).wf(),
        ensures
            final(s).wf(),
            match outcome {
                ProofProbeOutcome::Transport => {
                    r == Err::<ProofCheckResult, RegistryError>(RegistryError::TransportFailed)
                        && *final(s) == *old(s)
                },
                ProofProbeOutcome::Status(status) => {
                    &&& r matches Ok(pcr) && pcr.checker_principal == checker_principal
                        && pcr.timestamp == now && pcr.status_found == probe_status_of(status)
                        && pcr.notes@ == "HTTP status: "@ + decimal_seq(status as nat)
                    &&& if status == 404 {
                        match old(s).company_of(company_id@) {
                            None => *final(s) == *old(s),
                            Some(c) => {
                                &&& final(s).company_of(company_id@) matches Some(c2)
                                    && c2.web3_identity.verification_proofs@
                                        == proofs_with_url_removed(
                                        c.web3_identity.verification_proofs@,
                                        proof_url@,
                                    )
                                    && c2.web3_identity == (Web3Identity {
                                        verification_proofs: c2.web3_identity.verification_proofs,
                                        ..c.web3_identity
                                    })
                                    && c2.verification_score == verification_score_spec(c2)
                                    && c2 == (Company {
                                        web3_identity: c2.web3_identity,
                                        verification_score: c2.verification_score,
                                        updated_at: now,
                                        ..c
                                    })
                                &&& (forall|k: Seq<char>| k != company_id@
                                    ==> #[trigger] final(s).company_of(k) == old(s).company_of(k))
                                &&& *final(s) == (StorageManager {
                                    companies: final(s).companies,
                                    ..*old(s)
                                })
                            },
                        }
                    } else {
                        *final(s) == *old(s)
                    }
                },
            },
    {
        let status: u32 = match outcome {
            ProofProbeOutcome::Transport => {
                return Err(RegistryError::TransportFailed);
            },
            ProofProbeOutcome::Status(status) => status,
        };
        let found: ProofStatus = if status == 200 {
            ProofStatus::Active
        } else if status == 404 {
            ProofStatus::Removed
        } else {
            ProofStatus::Disputed
        };
        if status == 404 {
            match s.companies.index_of(company_id) {
                None => {},
                Some(i) => {
                    proof {
                        s.companies.lemma_lookup_at(i as int);
                    }
                    let ghost c_old = s.companies.items@[i as int];
                    let mut c = s.companies.remove_at(i);
                    mark_proofs_removed(&mut c.web3_identity.verification_proofs, proof_url);
                    c.verification_score = Self::calculate_verification_score(&c);
                    c.updated_at = now;
                    proof {
                        assert(c.web3_identity == (Web3Identity {
                            verification_proofs: c.web3_identity.verification_proofs,
                            ..c_old.web3_identity
                        }));
                    }
                    s.companies.insert_at(i, c);
                },
            }
        }
        let notes = String::from_str("HTTP status: ").concat(
            decimal_string(status as u64).as_str(),
        );
        Ok(ProofCheckResult {
            checker_principal,
            timestamp: now,
            status_found: found,
            notes,
        })
    }

    /// Lets anyone report a suspicious verification proof.  The report is
    /// acknowledged only when the company and the named proof exist.
    pub fn report_verification_issue(
        s: &StorageManager,
        company_id: &str,
        proof_url: &str,
        report_type: ReportType,
        evidence: String,
        reporter_principal: Principal,
    ) -> (r: RegistryResult<String>)
        requires
            s.wf(),
        ensures
            match r {
                Ok(msg) => {
                    &&& s.company_of(company_id@) matches Some(c)
                        && (exists|j: int| 0 <= j < c.web3_identity.verification_proofs@.len()
                            && (#[trigger] c.web3_identity.verification_proofs@[j]).proof_url@
                                == proof_url@)
                    &&& occurs_in(msg@, proof_url@)
                },
                Err(RegistryError::CompanyNotFound) => s.company_of(company_id@) is None,
                Err(RegistryError::ProofNotFound) => {
                    s.company_of(company_id@) matches Some(c)
                        && forall|j: int| 0 <= j < c.web3_identity.verification_proofs@.len()
                            ==> (#[trigger] c.web3_identity.verification_proofs@[j]).proof_url@
                                != proof_url@
                },
                Err(_) => false,
            },
    {
        let _ = report_type;
        let _ = evidence;
        let _ = reporter_principal;
        let c = match s.get_company(company_id) {
            None => {
                return Err(RegistryError::CompanyNotFound);
            },
            Some(c) => c,
        };
        let proofs = &c.web3_identity.verification_proofs;
        let mut j: usize = 0;
        let mut found = false;
        while j < proofs.len() && !found
            invariant
                proofs@ == c.web3_identity.verification_proofs@,
                j <= proofs@.len(),
                found ==> exists|q: int| 0 <= q < proofs@.len()
                    && (#[trigger] proofs@[q]).proof_url@ == proof_url@,
                !found ==> forall|q: int| 0 <= q < j
                    ==> (#[trigger] proofs@[q]).proof_url@ != proof_url@,
            decreases proofs@.len() - j,
        {
            if crate::text::str_eq(proofs[j].proof_url.as_str(), proof_url) {
                found = true;
            }
            j = j + 1;
        }
        if !found {
            return Err(RegistryError::ProofNotFound);
        }
        let ghost pre = "report received; moderators will review the proof at: "@;
        let msg = String::from_str("report received; moderators will review the proof at: ")
            .concat(proof_url);
        proof {
            assert(msg@.subrange(pre.len() as int, pre.len() + proof_url@.len() as int) =~= proof_url@);
            assert(crate::text::occurs_at(msg@, proof_url@, pre.len() as int));
        }
        Ok(msg)
    }
}

/// Marks every proof carrying `url` as removed, in place.
fn mark_proofs_removed(proofs: &mut Vec<VerificationProof>, url: &str)
    ensures
        final(proofs)@ == proofs_with_url_removed(old(proofs)@, url@),
{
    let ghost orig = old(proofs)@;
    let mut j: usize = 0;
    while j < proofs.len()
        invariant
            proofs@.len() == orig.len(),
            j <= orig.len(),
            forall|q: int| 0 <= q < j
                ==> #[trigger] proofs@[q] == proofs_with_url_removed(orig, url@)[q],
            forall|q: int| j <= q < orig.len() ==> #[trigger] proofs@[q] == orig[q],
        decreases orig.len() - j,
    {
        if crate::text::str_eq(proofs[j].proof_url.as_str(), url) {
            let mut p = proofs.remove(j);
            p.status = ProofStatus::Removed;
            proofs.insert(j, p);
        }
        j = j + 1;
    }
    proof {
        assert(proofs@ =~= proofs_with_url_removed(orig, url@));
    }
}

// ---------------------------------------------------------------------------
// Instruction texts
// ---------------------------------------------------------------------------

impl VerificationManager {
    /// Human-readable steps for each verification method.
    pub fn get_verification_instructions(verification_type: VerificationType) -> (r: String)
    {
        match verification_type {
            VerificationType::GitHub => String::from_str(
                "To verify your GitHub organization:\n\
                 1. Ensure the organization has at least one public repository\n\
                 2. Begin a GitHub verification for your company\n\
                 3. The registry checks that the organization exists and shows activity",
            ),
            VerificationType::Domain => String::from_str(
                "To verify domain ownership:\n\
                 1. Create a domain verification challenge for your company\n\
                 2. Publish the challenge token as a TXT record on your domain\n\
                 3. Complete the verification before the challenge expires\n\
                 4. TXT record format: icp-registry-verification=<token>",
            ),
            VerificationType::Twitter => String::from_str(
                "Twitter verification (permanent proof required):\n\
                 1. Post a public tweet carrying the exact registry text with your company ID\n\
                 2. Pin the tweet to your profile\n\
                 3. Submit the tweet URL as your proof\n\
                 Deleting the tweet after verification flags your company as suspicious",
            ),
            VerificationType::Discord => String::from_str(
                "Discord verification (permanent proof required):\n\
                 1. Post the exact registry text with your company ID in a public channel\n\
                 2. Pin the message in your announcements channel\n\
                 3. Submit the message URL as your proof\n\
                 Deleting the message triggers a community review",
            ),
            VerificationType::Telegram => String::from_str(
                "Telegram verification (permanent proof required):\n\
                 1. Post the exact registry text with your company ID in your public channel\n\
                 2. Pin the message to the channel\n\
                 3. Submit the message URL as your proof\n\
                 Removing the message results in loss of the verification",
            ),
        }
    }

    /// Instructions with the company's required proof text spelled out; for
    /// the social platforms the company identifier appears in the text.
    pub fn get_verification_instructions_with_company_id(
        verification_type: VerificationType,
        company_id: &str,
    ) -> (r: String)
        ensures
            (verification_type == VerificationType::Twitter
                || verification_type == VerificationType::Discord
                || verification_type == VerificationType::Telegram)
                ==> occurs_in(r@, company_id@),
    {
        match verification_type {
            VerificationType::GitHub => Self::get_verification_instructions(
                VerificationType::GitHub,
            ),
            VerificationType::Domain => Self::get_verification_instructions(
                VerificationType::Domain,
            ),
            VerificationType::Twitter => {
                let ghost pre = "Twitter verification: post a public tweet with this exact text: \
                    ICP CrossChain Registry - Company ID: "@;
                let r = String::from_str(
                    "Twitter verification: post a public tweet with this exact text: \
                    ICP CrossChain Registry - Company ID: ",
                ).concat(company_id).concat(
                    "\nPin the tweet, then submit its URL as your proof.",
                );
                proof {
                    assert(r@.subrange(pre.len() as int, pre.len() + company_id@.len() as int)
                        =~= company_id@);
                    assert(crate::text::occurs_at(r@, company_id@, pre.len() as int));
                }
                r
            },
            VerificationType::Discord => {
                let ghost pre = "Discord verification: post this exact text in a public channel: \
                    ICP CrossChain Registry - Company ID: "@;
                let r = String::from_str(
                    "Discord verification: post this exact text in a public channel: \
                    ICP CrossChain Registry - Company ID: ",
                ).concat(company_id).concat(
                    "\nPin the message, then submit its URL as your proof.",
                );
                proof {
                    assert(r@.subrange(pre.len() as int, pre.len() + company_id@.len() as int)
                        =~= company_id@);
                    assert(crate::text::occurs_at(r@, company_id@, pre.len() as int));
                }
                r
            },
            VerificationType::Telegram => {
                let ghost pre = "Telegram verification: post this exact text in your public channel: \
                    ICP CrossChain Registry - Company ID: "@;
                let r = String::from_str(
                    "Telegram verification: post this exact text in your public channel: \
                    ICP CrossChain Registry - Company ID: ",
                ).concat(company_id).concat(
                    "\nPin the message, then submit its URL as your proof.",
                );
                proof {
                    assert(r@.subrange(pre.len() as int, pre.len() + company_id@.len() as int)
                        =~= company_id@);
                    assert(crate::text::occurs_at(r@, company_id@, pre.len() as int));
                }
                r
            },
        }
    }
}

/// A challenge accepted once is not acceptable again without re-issuance:
/// whatever evidence is presented, the verification directly after a
/// successful one answers that no challenge exists, and changes nothing.
pub proof fn lemma_challenge_single_use(
    s0: StorageManager,
    s1: StorageManager,
    s2: StorageManager,
    company_id: Seq<char>,
    now1: u64,
    now2: u64,
    o1: DnsTxtOutcome,
    o2: DnsTxtOutcome,
    r1: RegistryResult<VerificationResult>,
    r2: RegistryResult<VerificationResult>,
)
    requires
        domain_verification_step(s0, s1, company_id, now1, o1, r1),
        r1 matches Ok(v) && v.success,
        domain_verification_step(s1, s2, company_id, now2, o2, r2),
    ensures
        r2 == Err::<VerificationResult, RegistryError>(RegistryError::ChallengeNotFound),
        s2 == s1,
{
}

/// A challenge past its expiry always yields an expiry error and is deleted,
/// regardless of whether the evidence would have matched.
pub proof fn lemma_expired_challenge_rejected(
    s0: StorageManager,
    s1: StorageManager,
    company_id: Seq<char>,
    now: u64,
    o: DnsTxtOutcome,
    r: RegistryResult<VerificationResult>,
)
    requires
        domain_verification_step(s0, s1, company_id, now, o, r),
        s0.domain_challenge_of(company_id) matches Some(ch) && now > ch.expires_at,
    ensures
        r == Err::<VerificationResult, RegistryError>(RegistryError::ChallengeExpired),
        s1.domain_challenge_of(company_id) is None,
{
}

} // verus!
