//! Registry surface: company creation and update with input bounds,
//! listing, search, counts, and the address-validation utilities.

use vstd::prelude::*;
use crate::storage::{StorageManager, filtered};
use crate::text::{eq_ci, lower_code, occurs_in_ci, str_contains_ci, str_eq_ci, str_is_blank};
use crate::types::{
    Company, CommunityValidation, CompanyStatus, CreateCompanyRequest, Principal, RegistryError,
    RegistryResult, RegistryStatistics, SearchFilters, TeamMember, UpdateCompanyRequest,
};
use crate::verification::{VerificationManager, verification_score_spec};

verus! {

/// The company-registry operations.
pub struct RegistryAPI;

// ---------------------------------------------------------------------------
// Input bounds
// ---------------------------------------------------------------------------

/// An optional text field within a bound.
pub open spec fn opt_len_ok(o: Option<String>, max: int) -> bool {
    match o {
        Some(v) => v@.len() <= max,
        None => true,
    }
}

/// Every list of strings has entries within the bound.
pub open spec fn all_within(ss: Seq<String>, max: int) -> bool {
    forall|i: int| 0 <= i < ss.len() ==> (#[trigger] ss[i])@.len() <= max
}

/// The registration bounds: names, texts, socials, address lists and team
/// entries all within their limits, and a nonblank name.
pub open spec fn company_request_ok(req: CreateCompanyRequest) -> bool {
    &&& req.basic_info.name@.len() <= 100
    &&& req.basic_info.description@.len() <= 2000
    &&& req.basic_info.website@.len() <= 500
    &&& req.basic_info.founding_date@.len() <= 20
    &&& !crate::text::is_blank(req.basic_info.name@)
    &&& req.basic_info.team_size <= 10_000
    &&& req.basic_info.focus_areas@.len() <= 10
    &&& opt_len_ok(req.web3_identity.github_org, 100)
    &&& opt_len_ok(req.web3_identity.twitter_handle, 100)
    &&& opt_len_ok(req.web3_identity.discord_server, 500)
    &&& opt_len_ok(req.web3_identity.telegram_channel, 500)
    &&& opt_len_ok(req.web3_identity.linkedin_company, 100)
    &&& opt_len_ok(req.web3_identity.medium_publication, 100)
    &&& req.cross_chain_presence.ethereum_contracts@.len() <= 20
    &&& req.cross_chain_presence.bitcoin_addresses@.len() <= 20
    &&& req.cross_chain_presence.solana_addresses@.len() <= 20
    &&& req.cross_chain_presence.sui_addresses@.len() <= 20
    &&& req.cross_chain_presence.ton_addresses@.len() <= 20
    &&& all_within(req.cross_chain_presence.ethereum_contracts@, 100)
    &&& all_within(req.cross_chain_presence.bitcoin_addresses@, 100)
    &&& all_within(req.cross_chain_presence.solana_addresses@, 100)
    &&& req.team_members@.len() <= 50
    &&& (forall|i: int| 0 <= i < req.team_members@.len() ==> {
        let m = #[trigger] req.team_members@[i];
        m.name@.len() <= 100 && m.role@.len() <= 100 && opt_member_link_ok(m)
    })
}

/// A team member's profile links within their bounds.
pub open spec fn opt_member_link_ok(m: TeamMember) -> bool {
    opt_len_ok(m.github_profile, 500) && opt_len_ok(m.linkedin_profile, 500)
}

fn check_opt_len(o: &Option<String>, max: usize) -> (b: bool)
    ensures
        b == opt_len_ok(*o, max as int),
{
    match o {
        Some(v) => v.as_str().unicode_len() <= max,
        None => true,
    }
}

fn check_all_within(ss: &Vec<String>, max: usize) -> (b: bool)
    ensures
        b == all_within(ss@, max as int),
{
    let mut i: usize = 0;
    while i < ss.len()
        invariant
            i <= ss@.len(),
            forall|q: int| 0 <= q < i ==> (#[trigger] ss@[q])@.len() <= max,
        decreases ss@.len() - i,
    {
        if ss[i].as_str().unicode_len() > max {
            return false;
        }
        i = i + 1;
    }
    true
}

impl RegistryAPI {
    /// Refuses a text over the given bound.
    pub fn validate_string_length(value: &str, max_length: usize, field_name: &str) -> (r:
        RegistryResult<()>)
        ensures
            r is Ok <==> value@.len() <= max_length,
            r matches Err(e) ==> e == RegistryError::InvalidInput,
    {
        let _ = field_name;
        if value.unicode_len() > max_length {
            Err(RegistryError::InvalidInput)
        } else {
            Ok(())
        }
    }

    /// Validates a registration request against all input bounds.
    pub fn validate_company_request(request: &CreateCompanyRequest) -> (r: RegistryResult<()>)
        ensures
            r is Ok <==> company_request_ok(*request),
            r matches Err(e) ==> e == RegistryError::InvalidInput,
    {
        let b = &request.basic_info;
        if b.name.as_str().unicode_len() > 100 || b.description.as_str().unicode_len() > 2000
            || b.website.as_str().unicode_len() > 500
            || b.founding_date.as_str().unicode_len() > 20 {
            return Err(RegistryError::InvalidInput);
        }
        if str_is_blank(b.name.as_str()) {
            return Err(RegistryError::InvalidInput);
        }
        if b.team_size > 10_000 || b.focus_areas.len() > 10 {
            return Err(RegistryError::InvalidInput);
        }
        let w = &request.web3_identity;
        if !check_opt_len(&w.github_org, 100) || !check_opt_len(&w.twitter_handle, 100)
            || !check_opt_len(&w.discord_server, 500) || !check_opt_len(&w.telegram_channel, 500)
            || !check_opt_len(&w.linkedin_company, 100)
            || !check_opt_len(&w.medium_publication, 100) {
            return Err(RegistryError::InvalidInput);
        }
        let p = &request.cross_chain_presence;
        if p.ethereum_contracts.len() > 20 || p.bitcoin_addresses.len() > 20
            || p.solana_addresses.len() > 20 || p.sui_addresses.len() > 20
            || p.ton_addresses.len() > 20 {
            return Err(RegistryError::InvalidInput);
        }
        if !check_all_within(&p.ethereum_contracts, 100)
            || !check_all_within(&p.bitcoin_addresses, 100)
            || !check_all_within(&p.solana_addresses, 100) {
            return Err(RegistryError::InvalidInput);
        }
        if request.team_members.len() > 50 {
            return Err(RegistryError::InvalidInput);
        }
        let mut i: usize = 0;
        while i < request.team_members.len()
            invariant
                i <= request.team_members@.len(),
                forall|q: int| 0 <= q < i ==> {
                    let m = #[trigger] request.team_members@[q];
                    m.name@.len() <= 100 && m.role@.len() <= 100 && opt_member_link_ok(m)
                },
            decreases request.team_members@.len() - i,
        {
            let m = &request.team_members[i];
            if m.name.as_str().unicode_len() > 100 || m.role.as_str().unicode_len() > 100
                || !check_opt_len(&m.github_profile, 500)
                || !check_opt_len(&m.linkedin_profile, 500) {
                return Err(RegistryError::InvalidInput);
            }
            i = i + 1;
        }
        Ok(())
    }

    /// Registers a company: a time-derived identifier, empty community
    /// signals, pending status, and the initial verification score.
    pub fn create_company(
        s: &mut StorageManager,
        request: CreateCompanyRequest,
        caller_principal: Principal,
        now: u64,
    ) -> (r: RegistryResult<String>)
        requires
            old(s).wf(),
        ensures
            final(s).wf(),
            *final(s) == (StorageManager { companies: final(s).companies, ..*old(s) }),
            match r {
                Err(e) => e == RegistryError::InvalidInput && !company_request_ok(request)
                    && *final(s) == *old(s),
                Ok(id) => {
                    &&& company_request_ok(request)
                    &&& id@ == "company_"@ + crate::text::decimal_seq(now as nat)
                    &&& final(s).company_of(id@) matches Some(c)
                        && c.id@ == id@
                        && c.basic_info == request.basic_info
                        && c.web3_identity == (crate::types::Web3Identity {
                            verification_proofs: c.web3_identity.verification_proofs,
                            ..request.web3_identity
                        })
                        && c.web3_identity.verification_proofs@.len() == 0
                        && c.cross_chain_presence == request.cross_chain_presence
                        && c.team_members@ == request.team_members@
                        && c.community_validation.peer_endorsements@.len() == 0
                        && c.community_validation.employee_testimonials@.len() == 0
                        && c.community_validation.community_vouches@.len() == 0
                        && c.community_validation.reputation_score == 0
                        && c.community_validation.reputation_staked == 0
                        && c.status == CompanyStatus::Pending
                        && c.created_at == now && c.updated_at == now
                        && c.created_by == caller_principal
                        && c.verification_score == verification_score_spec(c)
                    &&& (forall|k: Seq<char>| k != id@
                        ==> #[trigger] final(s).company_of(k) == old(s).company_of(k))
                },
            },
    {
        if let Err(e) = Self::validate_company_request(&request) {
            return Err(e);
        }
        let company_id = StorageManager::generate_company_id(now);
        let mut web3_identity = request.web3_identity;
        web3_identity.verification_proofs = Vec::new();
        let mut company = Company {
            id: company_id.clone(),
            basic_info: request.basic_info,
            web3_identity,
            cross_chain_presence: request.cross_chain_presence,
            team_members: request.team_members,
            community_validation: CommunityValidation {
                peer_endorsements: Vec::new(),
                employee_testimonials: Vec::new(),
                community_vouches: Vec::new(),
                reputation_score: 0,
                reputation_staked: 0,
            },
            status: CompanyStatus::Pending,
            created_at: now,
            updated_at: now,
            created_by: caller_principal,
            verification_score: 0,
        };
        company.verification_score = VerificationManager::calculate_verification_score(&company);
        s.insert_company(company_id.clone(), company);
        Ok(company_id)
    }

    /// Borrows a company by identifier.
    pub fn get_company(s: &StorageManager, company_id: String) -> (r: RegistryResult<&Company>)
        requires
            s.wf(),
        ensures
            match r {
                Ok(c) => s.company_of(company_id@) == Some(*c),
                Err(e) => e == RegistryError::CompanyNotFound
                    && s.company_of(company_id@) is None,
            },
    {
        match s.get_company(company_id.as_str()) {
            Some(c) => Ok(c),
            None => Err(RegistryError::CompanyNotFound),
        }
    }

    /// Updates the provided sections of a company's profile and recomputes
    /// its verification score; only the owner may act.
    #[verifier::rlimit(100)]
    #[verifier::spinoff_prover]
    pub fn update_company(
        s: &mut StorageManager,
        request: UpdateCompanyRequest,
        caller_principal: Principal,
        now: u64,
    ) -> (r: RegistryResult<()>)
        requires
            old(s).wf(),
        ensures
            final(s).wf(),
            *final(s) == (StorageManager { companies: final(s).companies, ..*old(s) }),
            match r {
                Err(RegistryError::CompanyNotFound) => old(s).company_of(request.company_id@)
                    is None && *final(s) == *old(s),
                Err(RegistryError::Unauthorized) => (old(s).company_of(request.company_id@)
                    matches Some(c) && c.created_by != caller_principal) && *final(s) == *old(s),
                Ok(()) => {
                    &&& old(s).company_of(request.company_id@) matches Some(c)
                        && c.created_by == caller_principal
                    &&& final(s).company_of(request.company_id@) is Some
                    &&& ({
                        let c = old(s).company_of(request.company_id@).unwrap();
                        let c2 = final(s).company_of(request.company_id@).unwrap();
                        &&& c2.basic_info == (match request.basic_info {
                            Some(b) => b,
                            None => c.basic_info,
                        })
                        &&& c2.web3_identity == (match request.web3_identity {
                            Some(w) => w,
                            None => c.web3_identity,
                        })
                        &&& c2.cross_chain_presence == (match request.cross_chain_presence {
                            Some(p) => p,
                            None => c.cross_chain_presence,
                        })
                        &&& c2.team_members@ == (match request.team_members {
                            Some(t) => t@,
                            None => c.team_members@,
                        })
                        &&& c2.verification_score == verification_score_spec(c2)
                        &&& c2 == (Company {
                            basic_info: c2.basic_info,
                            web3_identity: c2.web3_identity,
                            cross_chain_presence: c2.cross_chain_presence,
                            team_members: c2.team_members,
                            verification_score: c2.verification_score,
                            updated_at: now,
                            ..c
                        })
                    })
                    &&& (forall|k: Seq<char>| k != request.company_id@
                        ==> #[trigger] final(s).company_of(k) == old(s).company_of(k))
                },
                Err(_) => false,
            },
    {
        let i = match s.companies.index_of(request.company_id.as_str()) {
            None => {
                return Err(RegistryError::CompanyNotFound);
            },
            Some(i) => i,
        };
        proof {
            s.companies.lemma_lookup_at(i as int);
        }
        if !(s.companies.items[i].created_by == caller_principal) {
            return Err(RegistryError::Unauthorized);
        }
        let c = s.companies.remove_at(i);
        let c2 = apply_company_update(c, request, now);
        s.companies.insert_at(i, c2);
        Ok(())
    }

    pub fn get_company_count(s: &StorageManager) -> (n: u64)
        ensures
            n == s.companies.items@.len(),
    {
        s.get_companies_count()
    }

    /// Exact company counts by status.
    pub fn get_statistics(s: &StorageManager) -> (r: RegistryStatistics)
        ensures
            r.total_companies == s.companies.items@.len(),
            r.pending_companies == filtered(
                s.companies.items@,
                |c: Company| c.status == CompanyStatus::Pending,
            ).len(),
            r.verified_companies == filtered(
                s.companies.items@,
                |c: Company| c.status == CompanyStatus::Verified,
            ).len(),
            r.trusted_companies == filtered(
                s.companies.items@,
                |c: Company| c.status == CompanyStatus::Trusted,
            ).len(),
            r.flagged_companies == filtered(
                s.companies.items@,
                |c: Company| c.status == CompanyStatus::Flagged,
            ).len(),
    {
        let ghost pend = |c: Company| c.status == CompanyStatus::Pending;
        let ghost verif = |c: Company| c.status == CompanyStatus::Verified;
        let ghost trust = |c: Company| c.status == CompanyStatus::Trusted;
        let ghost flag = |c: Company| c.status == CompanyStatus::Flagged;
        let items = &s.companies.items;
        let mut pending: u64 = 0;
        let mut verified: u64 = 0;
        let mut trusted: u64 = 0;
        let mut flagged: u64 = 0;
        let mut i: usize = 0;
        proof {
            assert(items@.subrange(0, 0) =~= Seq::<Company>::empty());
        }
        while i < items.len()
            invariant
                items@ == s.companies.items@,
                i <= items@.len(),
                pending == filtered(items@.subrange(0, i as int), pend).len(),
                verified == filtered(items@.subrange(0, i as int), verif).len(),
                trusted == filtered(items@.subrange(0, i as int), trust).len(),
                flagged == filtered(items@.subrange(0, i as int), flag).len(),
                pending + verified + trusted + flagged <= i,
                pend == (|c: Company| c.status == CompanyStatus::Pending),
                verif == (|c: Company| c.status == CompanyStatus::Verified),
                trust == (|c: Company| c.status == CompanyStatus::Trusted),
                flag == (|c: Company| c.status == CompanyStatus::Flagged),
            decreases items@.len() - i,
        {
            match items[i].status {
                CompanyStatus::Pending => {
                    pending = pending + 1;
                },
                CompanyStatus::Verified => {
                    verified = verified + 1;
                },
                CompanyStatus::Trusted => {
                    trusted = trusted + 1;
                },
                CompanyStatus::Flagged => {
                    flagged = flagged + 1;
                },
                CompanyStatus::Suspended => {},
            }
            i = i + 1;
            proof {
                let prefix = items@.subrange(0, i as int);
                assert(prefix.drop_last() =~= items@.subrange(0, i - 1));
                assert(prefix.last() == items@[i - 1]);
            }
        }
        proof {
            assert(items@.subrange(0, items@.len() as int) =~= items@);
        }
        RegistryStatistics {
            total_companies: s.get_companies_count(),
            pending_companies: pending,
            verified_companies: verified,
            trusted_companies: trusted,
            flagged_companies: flagged,
        }
    }

    /// Whether a company passes the optional search filters.
    pub fn matches_search_filters(c: &Company, filters: &SearchFilters) -> (b: bool)
        ensures
            b == filter_matches(*c, *filters),
    {
        let status_ok = match &filters.status {
            Some(st) => c.status == *st,
            None => true,
        };
        if !status_ok {
            return false;
        }
        let focus_ok = match &filters.focus_areas {
            Some(areas) => {
                let mut found = false;
                let mut i: usize = 0;
                while i < areas.len() && !found
                    invariant
                        filters.focus_areas is Some,
                        areas@ == filters.focus_areas.unwrap()@,
                        i <= areas@.len(),
                        found ==> exists|q: int| 0 <= q < areas@.len()
                            && string_in_list(c.basic_info.focus_areas@, (#[trigger] areas@[q])@),
                        !found ==> forall|q: int| 0 <= q < i
                            ==> !string_in_list(c.basic_info.focus_areas@, (#[trigger] areas@[q])@),
                    decreases areas@.len() - i, (if found { 0int } else { 1int }),
                {
                    if focus_area_present(&c.basic_info.focus_areas, areas[i].as_str()) {
                        found = true;
                    } else {
                        i = i + 1;
                    }
                }
                found
            },
            None => true,
        };
        if !focus_ok {
            return false;
        }
        let score_ok = match filters.min_verification_score {
            Some(min) => c.verification_score >= min,
            None => true,
        };
        if !score_ok {
            return false;
        }
        let github_ok = match filters.has_github {
            Some(hg) => hg == c.web3_identity.github_org.is_some(),
            None => true,
        };
        if !github_ok {
            return false;
        }
        match filters.has_contracts {
            Some(hc) => {
                let has_any = !c.cross_chain_presence.ethereum_contracts.is_empty()
                    || !c.cross_chain_presence.icp_canisters.is_empty()
                    || !c.cross_chain_presence.polygon_contracts.is_empty();
                hc == has_any
            },
            None => true,
        }
    }

    /// The stored companies passing the filters, ranked by verification
    /// score (ties by creation time, newest first), paginated.
    pub fn list_companies(
        s: &StorageManager,
        offset: Option<u32>,
        limit: Option<u32>,
        filters: Option<SearchFilters>,
    ) -> (r: Vec<&Company>)
        requires
            s.wf(),
        ensures
            forall|i: int, j: int| 0 <= i < j < r@.len() ==> ranked_before(*r@[i], *r@[j]),
            match filters {
                Some(f) => forall|i: int| 0 <= i < r@.len()
                    ==> filter_matches(*(#[trigger] r@[i]), f),
                None => true,
            },
    {
        let items = &s.companies.items;
        let mut picked: Vec<&Company> = Vec::new();
        let mut i: usize = 0;
        while i < items.len()
            invariant
                items@ == s.companies.items@,
                i <= items@.len(),
                match filters {
                    Some(f) => forall|q: int| 0 <= q < picked@.len()
                        ==> filter_matches(*(#[trigger] picked@[q]), f),
                    None => true,
                },
            decreases items@.len() - i,
        {
            let keep = match &filters {
                Some(f) => Self::matches_search_filters(&items[i], f),
                None => true,
            };
            if keep {
                picked.push(&items[i]);
            }
            i = i + 1;
        }
        let ghost picked_view = picked@;
        let sorted = sort_companies_ranked(picked);
        proof {
            broadcast use vstd::seq_lib::group_to_multiset_ensures;
            match filters {
                Some(f) => {
                    assert forall|q: int| 0 <= q < sorted@.len()
                        implies filter_matches(*(#[trigger] sorted@[q]), f) by {
                        assert(picked_view.to_multiset().count(sorted@[q]) > 0);
                        assert(picked_view.contains(sorted@[q]));
                        let w = choose|w: int| 0 <= w < picked_view.len()
                            && picked_view[w] == sorted@[q];
                        assert(filter_matches(*picked_view[w], f));
                    }
                },
                None => {},
            }
        }
        let from: usize = match offset {
            Some(o) => o as usize,
            None => 0,
        };
        let cap: usize = match limit {
            Some(l) => l as usize,
            None => 50,
        };
        let mut out: Vec<&Company> = Vec::new();
        let mut j: usize = from;
        if j > sorted.len() {
            return out;
        }
        while j < sorted.len() && out.len() < cap
            invariant
                from <= j <= sorted@.len(),
                out@ == sorted@.subrange(from as int, j as int),
                forall|a: int, b: int| 0 <= a < b < sorted@.len()
                    ==> ranked_before(*sorted@[a], *sorted@[b]),
                match filters {
                    Some(f) => forall|q: int| 0 <= q < sorted@.len()
                        ==> filter_matches(*(#[trigger] sorted@[q]), f),
                    None => true,
                },
            decreases sorted@.len() - j,
        {
            out.push(sorted[j]);
            j = j + 1;
            proof {
                assert(out@ =~= sorted@.subrange(from as int, j as int));
            }
        }
        out
    }

    /// The stored companies whose name, description or a focus area holds
    /// the query, ignoring ASCII case, in storage order.
    pub fn search_companies(s: &StorageManager, query: String) -> (r: Vec<&Company>)
        ensures
            r@.len() == filtered(
                s.companies.items@,
                |c: Company| query_matches(c, query@),
            ).len(),
            forall|i: int| 0 <= i < r@.len()
                ==> *r@[i] == filtered(
                    s.companies.items@,
                    |c: Company| query_matches(c, query@),
                )[i],
    {
        let ghost pred = |c: Company| query_matches(c, query@);
        let items = &s.companies.items;
        let mut out: Vec<&Company> = Vec::new();
        let mut i: usize = 0;
        proof {
            assert(items@.subrange(0, 0) =~= Seq::<Company>::empty());
        }
        while i < items.len()
            invariant
                items@ == s.companies.items@,
                i <= items@.len(),
                out@.len() == filtered(items@.subrange(0, i as int), pred).len(),
                forall|q: int| 0 <= q < out@.len()
                    ==> *out@[q] == filtered(items@.subrange(0, i as int), pred)[q],
                pred == (|c: Company| query_matches(c, query@)),
            decreases items@.len() - i,
        {
            if company_matches_query(&items[i], query.as_str()) {
                out.push(&items[i]);
            }
            i = i + 1;
            proof {
                let prefix = items@.subrange(0, i as int);
                assert(prefix.drop_last() =~= items@.subrange(0, i - 1));
                assert(prefix.last() == items@[i - 1]);
            }
        }
        proof {
            assert(items@.subrange(0, items@.len() as int) =~= items@);
        }
        out
    }

    /// Validates an address against the named chain's grammar.
    pub fn validate_address(chain: String, address: String) -> (r: RegistryResult<bool>)
        ensures
            r matches Ok(b) && b == crate::verification::spec_chain_address_valid(
                chain@,
                address@,
            ),
    {
        Ok(VerificationManager::validate_cross_chain_address(chain.as_str(), address.as_str()))
    }

    /// The format rules of the named chain, as text.
    pub fn get_address_validation_rules(chain: String) -> (r: RegistryResult<String>)
    {
        Ok(VerificationManager::get_address_validation_rules(chain.as_str()))
    }

    /// The chains the registry validates addresses for.
    pub fn get_supported_chains() -> (r: RegistryResult<Vec<String>>)
        ensures
            r matches Ok(v) && v@.len() == 7,
    {
        let mut chains: Vec<String> = Vec::new();
        chains.push(String::from_str("bitcoin"));
        chains.push(String::from_str("ethereum"));
        chains.push(String::from_str("solana"));
        chains.push(String::from_str("sui"));
        chains.push(String::from_str("ton"));
        chains.push(String::from_str("icp"));
        chains.push(String::from_str("polygon"));
        Ok(chains)
    }
}

/// Applies the provided profile sections to a company and recomputes its
/// verification score.  The identifier, ownership, community signals and
/// creation time are untouched.
#[verifier::rlimit(100)]
#[verifier::spinoff_prover]
fn apply_company_update(c: Company, request: UpdateCompanyRequest, now: u64) -> (c2: Company)
    ensures
        c2.basic_info == (match request.basic_info {
            Some(b) => b,
            None => c.basic_info,
        }),
        c2.web3_identity == (match request.web3_identity {
            Some(w) => w,
            None => c.web3_identity,
        }),
        c2.cross_chain_presence == (match request.cross_chain_presence {
            Some(p) => p,
            None => c.cross_chain_presence,
        }),
        c2.team_members@ == (match request.team_members {
            Some(t) => t@,
            None => c.team_members@,
        }),
        c2.verification_score == verification_score_spec(c2),
        c2.verification_score <= 100,
        c2 == (Company {
            basic_info: c2.basic_info,
            web3_identity: c2.web3_identity,
            cross_chain_presence: c2.cross_chain_presence,
            team_members: c2.team_members,
            verification_score: c2.verification_score,
            updated_at: now,
            ..c
        }),
        c2.id@ == c.id@,
{
    let mut c2 = c;
    match request.basic_info {
        Some(b) => {
            c2.basic_info = b;
        },
        None => {},
    }
    match request.web3_identity {
        Some(w) => {
            c2.web3_identity = w;
        },
        None => {},
    }
    match request.cross_chain_presence {
        Some(p) => {
            c2.cross_chain_presence = p;
        },
        None => {},
    }
    match request.team_members {
        Some(t) => {
            c2.team_members = t;
        },
        None => {},
    }
    c2.verification_score = VerificationManager::calculate_verification_score(&c2);
    c2.updated_at = now;
    c2
}

/// One of the list's strings equals the given text.
pub open spec fn string_in_list(ss: Seq<String>, a: Seq<char>) -> bool {
    exists|i: int| 0 <= i < ss.len() && (#[trigger] ss[i])@ == a
}

/// Executable test for [`string_in_list`].
fn focus_area_present(ss: &Vec<String>, a: &str) -> (b: bool)
    ensures
        b == string_in_list(ss@, a@),
{
    let mut i: usize = 0;
    while i < ss.len()
        invariant
            i <= ss@.len(),
            forall|q: int| 0 <= q < i ==> (#[trigger] ss@[q])@ != a@,
        decreases ss@.len() - i,
    {
        if crate::text::str_eq(ss[i].as_str(), a) {
            return true;
        }
        i = i + 1;
    }
    false
}

/// A company passes the optional search filters.
pub open spec fn filter_matches(c: Company, f: SearchFilters) -> bool {
    &&& (match f.status {
        Some(st) => c.status == st,
        None => true,
    })
    &&& (match f.focus_areas {
        Some(areas) => exists|q: int| 0 <= q < areas@.len()
            && string_in_list(c.basic_info.focus_areas@, (#[trigger] areas@[q])@),
        None => true,
    })
    &&& (match f.min_verification_score {
        Some(min) => c.verification_score >= min,
        None => true,
    })
    &&& (match f.has_github {
        Some(hg) => hg == (c.web3_identity.github_org is Some),
        None => true,
    })
    &&& (match f.has_contracts {
        Some(hc) => hc == (c.cross_chain_presence.ethereum_contracts@.len() > 0
            || c.cross_chain_presence.icp_canisters@.len() > 0
            || c.cross_chain_presence.polygon_contracts@.len() > 0),
        None => true,
    })
}

/// The listing order: higher verification score first; ties broken by the
/// later creation time.
pub open spec fn ranked_before(a: Company, b: Company) -> bool {
    a.verification_score > b.verification_score || (a.verification_score == b.verification_score
        && a.created_at >= b.created_at)
}

/// The search predicate: the query occurs, ignoring ASCII case, in the
/// name, the description or a focus area.
pub open spec fn query_matches(c: Company, q: Seq<char>) -> bool {
    occurs_in_ci(c.basic_info.name@, q) || occurs_in_ci(c.basic_info.description@, q) || exists|
        i: int,
    | 0 <= i < c.basic_info.focus_areas@.len() && occurs_in_ci(
        (#[trigger] c.basic_info.focus_areas@[i])@,
        q,
    )
}

/// Executable search predicate.
fn company_matches_query(c: &Company, q: &str) -> (b: bool)
    ensures
        b == query_matches(*c, q@),
{
    if str_contains_ci(c.basic_info.name.as_str(), q) {
        return true;
    }
    if str_contains_ci(c.basic_info.description.as_str(), q) {
        return true;
    }
    let areas = &c.basic_info.focus_areas;
    let mut i: usize = 0;
    while i < areas.len()
        invariant
            areas@ == c.basic_info.focus_areas@,
            i <= areas@.len(),
            forall|k: int| 0 <= k < i ==> !occurs_in_ci((#[trigger] areas@[k])@, q@),
        decreases areas@.len() - i,
    {
        if str_contains_ci(areas[i].as_str(), q) {
            return true;
        }
        i = i + 1;
    }
    false
}

/// Selection sort of company references by the listing order.
fn sort_companies_ranked<'a>(input: Vec<&'a Company>) -> (r: Vec<&'a Company>)
    ensures
        r@.to_multiset() == input@.to_multiset(),
        forall|i: int, j: int| 0 <= i < j < r@.len() ==> ranked_before(*r@[i], *r@[j]),
        forall|i: int| 0 <= i < r@.len() ==> input@.to_multiset().count(r@[i]) > 0,
{
    broadcast use vstd::seq_lib::group_to_multiset_ensures;

    let ghost orig = input@;
    let mut rest = input;
    let mut out: Vec<&Company> = Vec::new();
    while rest.len() > 0
        invariant
            out@.to_multiset().add(rest@.to_multiset()) == orig.to_multiset(),
            forall|i: int, j: int| 0 <= i < j < out@.len() ==> ranked_before(*out@[i], *out@[j]),
            forall|i: int, j: int| 0 <= i < out@.len() && 0 <= j < rest@.len()
                ==> ranked_before(*(#[trigger] out@[i]), *(#[trigger] rest@[j])),
            forall|i: int| 0 <= i < out@.len() ==> orig.to_multiset().count(out@[i]) > 0,
        decreases rest@.len(),
    {
        let mut best: usize = 0;
        let mut m: usize = 1;
        while m < rest.len()
            invariant
                rest@.len() > 0,
                best < rest@.len(),
                m <= rest@.len(),
                forall|q: int| 0 <= q < m
                    ==> ranked_before(*rest@[best as int], *(#[trigger] rest@[q])),
            decreases rest@.len() - m,
        {
            let better = rest[m].verification_score > rest[best].verification_score
                || (rest[m].verification_score == rest[best].verification_score
                    && rest[m].created_at > rest[best].created_at);
            if better {
                best = m;
            }
            m = m + 1;
        }
        let ghost rest_before = rest@;
        let ghost out_before = out@;
        let picked = rest.remove(best);
        out.push(picked);
        proof {
            rest_before.to_multiset_ensures();
            out_before.to_multiset_ensures();
            assert(rest_before.remove(best as int).to_multiset()
                =~= rest_before.to_multiset().remove(picked));
            assert(out_before.push(picked).to_multiset()
                =~= out_before.to_multiset().insert(picked));
            assert(rest_before.to_multiset().count(picked) > 0);
            assert(out@.to_multiset().add(rest@.to_multiset()) =~= orig.to_multiset());
            assert forall|j: int| 0 <= j < rest@.len()
                implies ranked_before(*picked, *(#[trigger] rest@[j])) by {
                let q0: int = if j < best { j } else { j + 1 };
                assert(rest@[j] == rest_before[q0]);
            }
            assert(orig.to_multiset().count(picked) > 0);
        }
    }
    out
}

} // verus!
