//! Cross-chain verification: challenge issuance for on-chain claims,
//! completion of Ethereum, Bitcoin and canister checks against fetched
//! evidence, portfolio enumeration, and the chain-risk assessment.

use vstd::prelude::*;
use crate::monitoring::MonitoringSystem;
use crate::ratelimit::{rl_admit, rl_next};
use crate::storage::{
    KeyedRecord, StorageManager, chain_name, chain_name_seq, filtered, VERIFICATION_RATE_MAX,
    VERIFICATION_RATE_WINDOW_NS,
};
use crate::text::{decimal_seq, decimal_string, occurs_in, str_contains, str_eq};
use crate::types::{
    BitcoinOutcome, ChainType, Company, CrossChainChallenge, CrossChainVerificationMethod,
    CrossChainVerificationRequest, EtherscanContractResponse, EtherscanOutcome, Principal,
    ProofStatus, RegistryError, RegistryResult, SecurityEventType, SecuritySeverity, TaskPriority,
    TaskType,
    VerificationMethod, VerificationProof, VerificationResult, VerificationType, WalletInfo,
    TokenInfo, Web3Identity, sat_add,
};
use crate::verification::{VerificationManager, verification_score_spec};

verus! {

/// Cross-chain verification logic.
pub struct CrossChainVerifier;

/// Cross-chain challenges live for 48 hours.
pub const CROSSCHAIN_CHALLENGE_TTL_NS: u64 = 172_800_000_000_000;

// ---------------------------------------------------------------------------
// Address formats (pre-challenge validation)
// ---------------------------------------------------------------------------

/// A dash-separated canister identifier: five or more nonempty groups of
/// lowercase alphanumerics — written as its character conditions.
pub open spec fn is_canister_id_text(s: Seq<char>) -> bool {
    &&& s.len() > 0
    &&& (forall|i: int| 0 <= i < s.len()
        ==> crate::verification::is_lower_alnum_char(#[trigger] s[i]) || s[i] == '-')
    &&& s[0] != '-'
    &&& s[s.len() - 1] != '-'
    &&& (forall|i: int| 0 <= i < s.len() - 1 ==> !(#[trigger] s[i] == '-' && s[i + 1] == '-'))
    &&& filtered(s, |c: char| c == '-').len() == 4
}

/// The quick per-chain shape check run before a challenge is created.
pub open spec fn address_format_ok(ct: ChainType, s: Seq<char>) -> bool {
    match ct {
        ChainType::Ethereum | ChainType::Polygon => {
            s.len() == 42 && s.len() >= 2 && s[0] == '0' && s[1] == 'x'
        },
        ChainType::Bitcoin => 26 <= s.len() <= 35,
        ChainType::ICP => is_canister_id_text(s),
        ChainType::Solana => 32 <= s.len() <= 44,
        ChainType::Sui => s.len() == 66 && s[0] == '0' && s[1] == 'x',
        ChainType::TON => s.len() >= 2 && ((s[0] == '0' && s[1] == ':') || (s[0] == 'E' && s[1]
            == 'Q') || (s[0] == 'U' && s[1] == 'Q') || (s[0] == 'k' && s[1] == 'Q')),
    }
}

impl CrossChainVerifier {
    /// Checks the dash-group shape of a canister identifier.
    pub fn is_valid_canister_id(canister_id: &str) -> (b: bool)
        ensures
            b == is_canister_id_text(canister_id@),
    {
        let ghost dash = |c: char| c == '-';
        let s = crate::text::chars_of(canister_id);
        if s.len() == 0 {
            return false;
        }
        if s[0] == '-' || s[s.len() - 1] == '-' {
            return false;
        }
        let mut dashes: usize = 0;
        let mut i: usize = 0;
        proof {
            assert(s@.subrange(0, 0) =~= Seq::<char>::empty());
        }
        while i < s.len()
            invariant
                s@ == canister_id@,
                s@.len() > 0,
                i <= s@.len(),
                s@[0] != '-',
                s@[s@.len() - 1] != '-',
                dashes == filtered(s@.subrange(0, i as int), dash).len(),
                dashes <= i,
                forall|q: int| 0 <= q < i
                    ==> crate::verification::is_lower_alnum_char(#[trigger] s@[q]) || s@[q] == '-',
                forall|q: int| 0 <= q < i - 1 ==> !(#[trigger] s@[q] == '-' && s@[q + 1] == '-'),
                dash == (|c: char| c == '-'),
            decreases s@.len() - i,
        {
            let c = s[i];
            let lower_alnum = crate::verification::is_lower_alnum(c);
            if !(lower_alnum || c == '-') {
                return false;
            }
            if c == '-' {
                if i > 0 && s[i - 1] == '-' {
                    return false;
                }
                dashes = dashes + 1;
            }
            i = i + 1;
            proof {
                let prefix = s@.subrange(0, i as int);
                assert(prefix.drop_last() =~= s@.subrange(0, i - 1));
                assert(prefix.last() == s@[i - 1]);
            }
        }
        proof {
            assert(s@.subrange(0, s@.len() as int) =~= s@);
        }
        dashes == 4
    }

    /// The quick per-chain shape check.
    pub fn validate_address_format(chain_type: &ChainType, address: &str) -> (r: RegistryResult<()>)
        ensures
            r is Ok <==> address_format_ok(*chain_type, address@),
            r matches Err(e) ==> e == RegistryError::InvalidInput,
    {
        let s = crate::text::chars_of(address);
        let ok = match chain_type {
            ChainType::Ethereum | ChainType::Polygon => {
                s.len() == 42 && s[0] == '0' && s[1] == 'x'
            },
            ChainType::Bitcoin => s.len() >= 26 && s.len() <= 35,
            ChainType::ICP => Self::is_valid_canister_id(address),
            ChainType::Solana => s.len() >= 32 && s.len() <= 44,
            ChainType::Sui => s.len() == 66 && s[0] == '0' && s[1] == 'x',
            ChainType::TON => s.len() >= 2 && ((s[0] == '0' && s[1] == ':') || (s[0] == 'E'
                && s[1] == 'Q') || (s[0] == 'U' && s[1] == 'Q') || (s[0] == 'k' && s[1] == 'Q')),
        };
        if ok {
            Ok(())
        } else {
            Err(RegistryError::InvalidInput)
        }
    }
}

// ---------------------------------------------------------------------------
// Challenge issuance
// ---------------------------------------------------------------------------

/// The message an owner must place on chain, derived from the verification
/// method and the company identifier.
pub open spec fn challenge_message_seq(
    method: CrossChainVerificationMethod,
    company_id: Seq<char>,
) -> Seq<char> {
    match method {
        CrossChainVerificationMethod::SignMessage { message } => message@,
        CrossChainVerificationMethod::DeploySpecialContract { verification_code } => {
            "Deploy contract with code: "@ + verification_code@ + " for company: "@ + company_id
        },
        CrossChainVerificationMethod::SetPublicVariable { variable_name, value } => {
            "Set "@ + variable_name@ + " = "@ + value@ + " for company: "@ + company_id
        },
        CrossChainVerificationMethod::SpecialTransaction { transaction_data } => {
            "Execute transaction: "@ + transaction_data@ + " for company: "@ + company_id
        },
    }
}

// ---------------------------------------------------------------------------
// The outstanding challenge for a target
// ---------------------------------------------------------------------------

/// Whether a stored entry is a challenge for the given target triple.
pub open spec fn chain_target_matches(
    item: crate::storage::StoredCrossChainChallenge,
    company_id: Seq<char>,
    chain: Seq<char>,
    address: Seq<char>,
) -> bool {
    item.challenge.company_id@ == company_id
        && chain_name_seq(item.challenge.chain_type) == chain
        && item.challenge.address_or_contract@ == address
}

/// Some stored entry targets the triple.
pub open spec fn has_chain_match(
    s: StorageManager,
    company_id: Seq<char>,
    chain: Seq<char>,
    address: Seq<char>,
) -> bool {
    exists|i: int| 0 <= i < s.crosschain_challenges.items@.len()
        && chain_target_matches(
            #[trigger] s.crosschain_challenges.items@[i],
            company_id,
            chain,
            address,
        )
}

/// The position of the earliest stored entry targeting the triple (the one
/// every lookup and consumption acts on).
pub open spec fn first_chain_match_idx(
    s: StorageManager,
    company_id: Seq<char>,
    chain: Seq<char>,
    address: Seq<char>,
) -> int {
    choose|i: int|
        0 <= i < s.crosschain_challenges.items@.len()
            && chain_target_matches(
                #[trigger] s.crosschain_challenges.items@[i],
                company_id,
                chain,
                address,
            )
            && (forall|j: int| 0 <= j < i
                ==> !chain_target_matches(
                    #[trigger] s.crosschain_challenges.items@[j],
                    company_id,
                    chain,
                    address,
                ))
}

/// The outstanding challenge for a target: the earliest matching entry.
pub open spec fn chain_challenge_lookup(
    s: StorageManager,
    company_id: Seq<char>,
    chain: Seq<char>,
    address: Seq<char>,
) -> Option<CrossChainChallenge> {
    if has_chain_match(s, company_id, chain, address) {
        Some(s.crosschain_challenges.items@[first_chain_match_idx(s, company_id, chain, address)]
            .challenge)
    } else {
        None
    }
}

/// When `i` is an earliest match, [`first_chain_match_idx`] picks it.
proof fn lemma_first_chain_match(
    s: StorageManager,
    company_id: Seq<char>,
    chain: Seq<char>,
    address: Seq<char>,
    i: int,
)
    requires
        0 <= i < s.crosschain_challenges.items@.len(),
        chain_target_matches(s.crosschain_challenges.items@[i], company_id, chain, address),
        forall|j: int| 0 <= j < i
            ==> !chain_target_matches(
                #[trigger] s.crosschain_challenges.items@[j],
                company_id,
                chain,
                address,
            ),
    ensures
        has_chain_match(s, company_id, chain, address),
        first_chain_match_idx(s, company_id, chain, address) == i,
        chain_challenge_lookup(s, company_id, chain, address)
            == Some(s.crosschain_challenges.items@[i].challenge),
{
    assert(has_chain_match(s, company_id, chain, address));
    let w = first_chain_match_idx(s, company_id, chain, address);
    assert(0 <= w < s.crosschain_challenges.items@.len()
        && chain_target_matches(s.crosschain_challenges.items@[w], company_id, chain, address)
        && (forall|j: int| 0 <= j < w
            ==> !chain_target_matches(
                #[trigger] s.crosschain_challenges.items@[j],
                company_id,
                chain,
                address,
            )));
    if w < i {
        assert(!chain_target_matches(s.crosschain_challenges.items@[w], company_id, chain, address));
    } else if w > i {
        assert(!chain_target_matches(s.crosschain_challenges.items@[i], company_id, chain, address));
    }
}

impl CrossChainVerifier {
    /// Renders the on-chain challenge message.
    pub fn generate_challenge_message(
        method: &CrossChainVerificationMethod,
        company_id: &str,
    ) -> (r: String)
        ensures
            r@ == challenge_message_seq(*method, company_id@),
    {
        match method {
            CrossChainVerificationMethod::SignMessage { message } => message.clone(),
            CrossChainVerificationMethod::DeploySpecialContract { verification_code } => {
                String::from_str("Deploy contract with code: ")
                    .concat(verification_code.as_str())
                    .concat(" for company: ")
                    .concat(company_id)
            },
            CrossChainVerificationMethod::SetPublicVariable { variable_name, value } => {
                String::from_str("Set ")
                    .concat(variable_name.as_str())
                    .concat(" = ")
                    .concat(value.as_str())
                    .concat(" for company: ")
                    .concat(company_id)
            },
            CrossChainVerificationMethod::SpecialTransaction { transaction_data } => {
                String::from_str("Execute transaction: ")
                    .concat(transaction_data.as_str())
                    .concat(" for company: ")
                    .concat(company_id)
            },
        }
    }

    /// Finds the stored key of the outstanding challenge for a target.
    pub fn find_challenge_key(
        s: &StorageManager,
        company_id: &str,
        chain: &str,
        address: &str,
    ) -> (r: RegistryResult<String>)
        requires
            s.wf(),
        ensures
            match r {
                Ok(key) => exists|i: int| 0 <= i < s.crosschain_challenges.items@.len()
                    && (#[trigger] s.crosschain_challenges.items@[i]).challenge_key@ == key@
                    && s.crosschain_challenges.items@[i].challenge.company_id@ == company_id@
                    && chain_name_seq(s.crosschain_challenges.items@[i].challenge.chain_type)
                        == chain@
                    && s.crosschain_challenges.items@[i].challenge.address_or_contract@
                        == address@,
                Err(e) => e == RegistryError::ChallengeNotFound && forall|i: int|
                    0 <= i < s.crosschain_challenges.items@.len()
                    ==> !((#[trigger] s.crosschain_challenges.items@[i]).challenge.company_id@
                            == company_id@
                        && chain_name_seq(s.crosschain_challenges.items@[i].challenge.chain_type)
                            == chain@
                        && s.crosschain_challenges.items@[i].challenge.address_or_contract@
                            == address@),
            },
    {
        match s.find_crosschain_challenge_key(company_id, chain, address) {
            Some(key) => Ok(key),
            None => Err(RegistryError::ChallengeNotFound),
        }
    }

    /// Issues a cross-chain challenge for an address or contract.  Rate
    /// limited to the verification class; only the company's owner may act;
    /// the address must pass the chain's shape check.  The challenge lives
    /// for 48 hours under a creation-time-keyed entry.
    pub fn create_crosschain_challenge(
        s: &mut StorageManager,
        request: CrossChainVerificationRequest,
        caller_principal: Principal,
        now: u64,
    ) -> (r: RegistryResult<CrossChainChallenge>)
        requires
            old(s).wf(),
        ensures
            final(s).wf(),
            *final(s) == (StorageManager {
                crosschain_challenges: final(s).crosschain_challenges,
                verification_limits: final(s).verification_limits,
                security_events: final(s).security_events,
                community_alerts: final(s).community_alerts,
                ..*old(s)
            }),
            match r {
                Err(RegistryError::RateLimited) => {
                    &&& !rl_admit(
                        old(s).verification_limits.history_of(caller_principal),
                        now,
                        VERIFICATION_RATE_WINDOW_NS,
                        VERIFICATION_RATE_MAX as nat,
                    )
                    &&& final(s).crosschain_challenges == old(s).crosschain_challenges
                },
                Err(RegistryError::CompanyNotFound) => {
                    &&& old(s).company_of(request.company_id@) is None
                    &&& final(s).crosschain_challenges == old(s).crosschain_challenges
                },
                Err(RegistryError::Unauthorized) => {
                    &&& old(s).company_of(request.company_id@) matches Some(c)
                        && c.created_by != caller_principal
                    &&& final(s).crosschain_challenges == old(s).crosschain_challenges
                },
                Err(RegistryError::InvalidInput) => {
                    &&& !address_format_ok(request.chain_type, request.address_or_contract@)
                    &&& final(s).crosschain_challenges == old(s).crosschain_challenges
                },
                Ok(ch) => {
                    &&& rl_admit(
                        old(s).verification_limits.history_of(caller_principal),
                        now,
                        VERIFICATION_RATE_WINDOW_NS,
                        VERIFICATION_RATE_MAX as nat,
                    )
                    &&& old(s).company_of(request.company_id@) matches Some(c)
                        && c.created_by == caller_principal
                    &&& address_format_ok(request.chain_type, request.address_or_contract@)
                    &&& ch.company_id@ == request.company_id@
                    &&& ch.chain_type == request.chain_type
                    &&& ch.address_or_contract@ == request.address_or_contract@
                    &&& ch.challenge_message@ == challenge_message_seq(
                        request.verification_method,
                        request.company_id@,
                    )
                    &&& ch.created_at == now
                    &&& ch.expires_at == (if now + CROSSCHAIN_CHALLENGE_TTL_NS <= u64::MAX {
                        now + CROSSCHAIN_CHALLENGE_TTL_NS
                    } else {
                        u64::MAX as int
                    })
                    &&& final(s).crosschain_challenge_of(
                        request.company_id@ + "_"@ + chain_name_seq(request.chain_type) + "_"@
                            + request.address_or_contract@ + "_"@ + decimal_seq(now as nat),
                    ) == Some(ch)
                },
                Err(_) => false,
            },
    {
        if !s.check_verification_rate_limit(caller_principal, now) {
            let _ = MonitoringSystem::log_security_event(
                s,
                SecurityEventType::RateLimitExceeded,
                Some(caller_principal),
                SecuritySeverity::Medium,
                String::from_str("rate limit exceeded for cross-chain challenge creation"),
                None,
                None,
                now,
            );
            return Err(RegistryError::RateLimited);
        }
        let authorized: bool = match s.get_company(request.company_id.as_str()) {
            None => {
                let _ = MonitoringSystem::log_security_event(
                    s,
                    SecurityEventType::SuspiciousInput,
                    Some(caller_principal),
                    SecuritySeverity::Low,
                    String::from_str(
                        "cross-chain challenge attempted for a company that does not exist",
                    ),
                    None,
                    None,
                    now,
                );
                return Err(RegistryError::CompanyNotFound);
            },
            Some(c) => c.created_by == caller_principal,
        };
        if !authorized {
            let _ = MonitoringSystem::log_security_event(
                s,
                SecurityEventType::UnauthorizedAccess,
                Some(caller_principal),
                SecuritySeverity::Medium,
                String::from_str("unauthorized cross-chain challenge attempt"),
                None,
                None,
                now,
            );
            return Err(RegistryError::Unauthorized);
        }
        if let Err(_) = Self::validate_address_format(
            &request.chain_type,
            request.address_or_contract.as_str(),
        ) {
            return Err(RegistryError::InvalidInput);
        }
        let challenge_message = Self::generate_challenge_message(
            &request.verification_method,
            request.company_id.as_str(),
        );
        let expires_at = sat_add(now, CROSSCHAIN_CHALLENGE_TTL_NS);
        let challenge = CrossChainChallenge {
            company_id: request.company_id.clone(),
            chain_type: request.chain_type,
            address_or_contract: request.address_or_contract.clone(),
            challenge_message,
            verification_method: request.verification_method,
            created_at: now,
            expires_at,
        };
        let challenge_key = StorageManager::generate_crosschain_challenge_key(
            request.company_id.as_str(),
            chain_name(request.chain_type),
            request.address_or_contract.as_str(),
            now,
        );
        let returned = challenge.clone();
        s.insert_crosschain_challenge(challenge_key, challenge);
        let _ = MonitoringSystem::log_security_event(
            s,
            SecurityEventType::SecurityScan,
            Some(caller_principal),
            SecuritySeverity::Low,
            String::from_str("cross-chain challenge created"),
            None,
            None,
            now,
        );
        Ok(returned)
    }

    /// First half of any chain verification: resolves the outstanding
    /// challenge for the target (the earliest stored match).  No match
    /// answers not-found; an expired match is deleted with the expiry
    /// error, regardless of any evidence; a live match is returned with
    /// the state untouched.
    pub fn begin_chain_verification(
        s: &mut StorageManager,
        company_id: &str,
        chain: &str,
        address: &str,
        now: u64,
    ) -> (r: RegistryResult<CrossChainChallenge>)
        requires
            old(s).wf(),
        ensures
            final(s).wf(),
            match chain_challenge_lookup(*old(s), company_id@, chain@, address@) {
                None => r == Err::<CrossChainChallenge, RegistryError>(
                    RegistryError::ChallengeNotFound,
                ) && *final(s) == *old(s),
                Some(ch) => {
                    if now > ch.expires_at {
                        &&& r == Err::<CrossChainChallenge, RegistryError>(
                            RegistryError::ChallengeExpired,
                        )
                        &&& final(s).crosschain_challenges.items@
                            == old(s).crosschain_challenges.items@.remove(
                            first_chain_match_idx(*old(s), company_id@, chain@, address@),
                        )
                        &&& *final(s) == (StorageManager {
                            crosschain_challenges: final(s).crosschain_challenges,
                            ..*old(s)
                        })
                    } else {
                        r == Ok::<CrossChainChallenge, RegistryError>(ch) && *final(s) == *old(s)
                    }
                },
            },
    {
        let key = match s.find_crosschain_challenge_key(company_id, chain, address) {
            None => {
                return Err(RegistryError::ChallengeNotFound);
            },
            Some(k) => k,
        };
        let ghost i = choose|i: int|
            0 <= i < s.crosschain_challenges.items@.len()
                && (#[trigger] s.crosschain_challenges.items@[i]).challenge_key@ == key@
                && s.crosschain_challenges.items@[i].challenge.company_id@ == company_id@
                && chain_name_seq(s.crosschain_challenges.items@[i].challenge.chain_type) == chain@
                && s.crosschain_challenges.items@[i].challenge.address_or_contract@ == address@
                && (forall|j: int| 0 <= j < i
                    ==> !((#[trigger] s.crosschain_challenges.items@[j]).challenge.company_id@
                            == company_id@
                        && chain_name_seq(s.crosschain_challenges.items@[j].challenge.chain_type)
                            == chain@
                        && s.crosschain_challenges.items@[j].challenge.address_or_contract@
                            == address@));
        proof {
            lemma_first_chain_match(*s, company_id@, chain@, address@, i);
            s.crosschain_challenges.lemma_lookup_at(i);
        }
        let challenge: CrossChainChallenge = match s.get_crosschain_challenge(key.as_str()) {
            None => {
                return Err(RegistryError::ChallengeNotFound);
            },
            Some(ch) => ch.clone(),
        };
        proof {
            assert(challenge == s.crosschain_challenges.items@[i].challenge);
        }
        if now > challenge.expires_at {
            let removed = s.remove_crosschain_challenge(key.as_str());
            proof {
                let j = choose|j: int|
                    0 <= j < old(s).crosschain_challenges.items@.len()
                        && (#[trigger] old(s).crosschain_challenges.items@[j]).challenge_key@
                            == key@
                        && s.crosschain_challenges.items@
                            == old(s).crosschain_challenges.items@.remove(j);
                assert(j == i) by {
                    if j != i {
                        assert(old(s).crosschain_challenges.items@[j].key()
                            == old(s).crosschain_challenges.items@[i].key());
                    }
                }
            }
            let _ = removed;
            return Err(RegistryError::ChallengeExpired);
        }
        Ok(challenge)
    }
}

// ---------------------------------------------------------------------------
// Completion against fetched evidence
// ---------------------------------------------------------------------------

/// Whether the challenge message appears in any returned transaction's
/// input data.
pub open spec fn challenge_in_transactions(
    data: EtherscanContractResponse,
    msg: Seq<char>,
) -> bool {
    exists|i: int| 0 <= i < data.result@.len()
        && occurs_in((#[trigger] data.result@[i]).input@, msg)
}

/// A string list contains the given text.
pub open spec fn string_list_contains(ss: Seq<String>, a: Seq<char>) -> bool {
    exists|i: int| 0 <= i < ss.len() && (#[trigger] ss[i])@ == a
}

/// Treasury wallets after marking those matching an address and chain as
/// verified.
pub open spec fn wallets_marked(ws: Seq<WalletInfo>, addr: Seq<char>, chain: Seq<char>) -> Seq<
    WalletInfo,
> {
    Seq::new(
        ws.len(),
        |j: int|
            if ws[j].address@ == addr && ws[j].chain@ == chain {
                WalletInfo { verified: true, ..ws[j] }
            } else {
                ws[j]
            },
    )
}

/// Token contracts after marking those matching an address and chain as
/// verified.
pub open spec fn tokens_marked(ts: Seq<TokenInfo>, addr: Seq<char>, chain: Seq<char>) -> Seq<
    TokenInfo,
> {
    Seq::new(
        ts.len(),
        |j: int|
            if ts[j].contract_address@ == addr && ts[j].chain@ == chain {
                TokenInfo { verified: true, ..ts[j] }
            } else {
                ts[j]
            },
    )
}

/// The company after a successful Ethereum contract verification: the
/// contract recorded (no duplicate), matching treasury wallets and token
/// contracts marked verified, and a permanent proof appended.  The proof is
/// recorded under the registry's stand-in type for automated cross-chain
/// references and carries the challenge message as its challenge data.
pub open spec fn eth_company_updated(
    c: Company,
    c2: Company,
    addr: Seq<char>,
    msg: Seq<char>,
    now: u64,
) -> bool {
    let contracts = c.cross_chain_presence.ethereum_contracts@;
    let contracts2 = c2.cross_chain_presence.ethereum_contracts@;
    let proofs = c.web3_identity.verification_proofs@;
    let proofs2 = c2.web3_identity.verification_proofs@;
    &&& if string_list_contains(contracts, addr) {
        contracts2 == contracts
    } else {
        contracts2.len() == contracts.len() + 1
            && contracts2.subrange(0, contracts.len() as int) == contracts
            && contracts2.last()@ == addr
    }
    &&& c2.cross_chain_presence.treasury_wallets@ == wallets_marked(
        c.cross_chain_presence.treasury_wallets@,
        addr,
        "ethereum"@,
    )
    &&& c2.cross_chain_presence.token_contracts@ == tokens_marked(
        c.cross_chain_presence.token_contracts@,
        addr,
        "ethereum"@,
    )
    &&& proofs2.len() == proofs.len() + 1
    &&& proofs2.subrange(0, proofs.len() as int) == proofs
    &&& proofs2.last().verification_type == VerificationType::GitHub
    &&& proofs2.last().proof_url@ == "https://etherscan.io/address/"@ + addr
    &&& proofs2.last().verified_at == now
    &&& proofs2.last().verification_method == VerificationMethod::Automated
    &&& proofs2.last().challenge_data matches Some(d) && d@ == msg
    &&& proofs2.last().status == ProofStatus::Active
    &&& c2.cross_chain_presence == (crate::types::CrossChainPresence {
        ethereum_contracts: c2.cross_chain_presence.ethereum_contracts,
        treasury_wallets: c2.cross_chain_presence.treasury_wallets,
        token_contracts: c2.cross_chain_presence.token_contracts,
        ..c.cross_chain_presence
    })
    &&& c2.web3_identity == (Web3Identity {
        verification_proofs: c2.web3_identity.verification_proofs,
        ..c.web3_identity
    })
    &&& c2 == (Company {
        cross_chain_presence: c2.cross_chain_presence,
        web3_identity: c2.web3_identity,
        updated_at: now,
        ..c
    })
}

/// The full behaviour of completing an Ethereum contract verification
/// against the fetched transaction list.  This relation is the contract of
/// [`CrossChainVerifier::complete_ethereum_verification`].
pub open spec fn ethereum_verification_step(
    pre: StorageManager,
    post: StorageManager,
    company_id: Seq<char>,
    contract_address: Seq<char>,
    now: u64,
    outcome: EtherscanOutcome,
    r: RegistryResult<VerificationResult>,
) -> bool {
    match chain_challenge_lookup(pre, company_id, "ethereum"@, contract_address) {
        // No outstanding challenge: nothing to verify.
        None => r == Err::<VerificationResult, RegistryError>(RegistryError::ChallengeNotFound)
            && post == pre,
        Some(ch) => {
            if now > ch.expires_at {
                // Expiry wins over any evidence: the challenge is deleted.
                &&& r == Err::<VerificationResult, RegistryError>(RegistryError::ChallengeExpired)
                &&& post.crosschain_challenges.items@ == pre.crosschain_challenges.items@.remove(
                    first_chain_match_idx(pre, company_id, "ethereum"@, contract_address),
                )
                &&& post == (StorageManager {
                    crosschain_challenges: post.crosschain_challenges,
                    ..pre
                })
            } else {
                match outcome {
                    EtherscanOutcome::Transport => {
                        r == Err::<VerificationResult, RegistryError>(
                            RegistryError::TransportFailed,
                        ) && post == pre
                    },
                    EtherscanOutcome::HttpError(_) => {
                        r == Err::<VerificationResult, RegistryError>(
                            RegistryError::ExternalServiceError,
                        ) && post == pre
                    },
                    EtherscanOutcome::Malformed => {
                        r == Err::<VerificationResult, RegistryError>(
                            RegistryError::ExternalServiceError,
                        ) && post == pre
                    },
                    EtherscanOutcome::Response(data) => {
                        if !challenge_in_transactions(data, ch.challenge_message@) {
                            // Evidence checked, message absent: a non-error
                            // refusal, and the challenge stays for a retry.
                            r matches Ok(v) && !v.success && v.verified_at is None && post == pre
                        } else {
                            match pre.company_of(company_id) {
                                None => r == Err::<VerificationResult, RegistryError>(
                                    RegistryError::CompanyNotFound,
                                ) && post == pre,
                                Some(c) => {
                                    &&& r matches Ok(v) && v.success && v.verified_at == Some(now)
                                    &&& post.company_of(company_id) matches Some(c2)
                                        && eth_company_updated(
                                        c,
                                        c2,
                                        contract_address,
                                        ch.challenge_message@,
                                        now,
                                    )
                                    &&& (forall|k: Seq<char>| k != company_id
                                        ==> #[trigger] post.company_of(k) == pre.company_of(k))
                                    // The challenge is consumed.
                                    &&& post.crosschain_challenges.items@
                                        == pre.crosschain_challenges.items@.remove(
                                        first_chain_match_idx(
                                            pre,
                                            company_id,
                                            "ethereum"@,
                                            contract_address,
                                        ),
                                    )
                                    // A routine re-check is scheduled.
                                    &&& post.monitoring_tasks.lookup(
                                        "task_"@ + decimal_seq(now as nat),
                                    ) matches Some(t) && t.task_type == TaskType::ProofCheck
                                        && t.target_company_id@ == company_id
                                        && (t.target_proof_id matches Some(p) && p@
                                            == "ethereum_"@ + contract_address + "_"@
                                                + decimal_seq(now as nat))
                                        && t.scheduled_at == crate::monitoring::sat_add_spec(
                                            now,
                                            crate::monitoring::PROOF_CHECK_DELAY_NS,
                                        )
                                        && t.priority == TaskPriority::Medium
                                        && t.retry_count == 0 && t.max_retries == 3
                                        && t.last_error is None
                                    // The acceptance is audited.
                                    &&& post.security_events.lookup(
                                        "evt_"@ + decimal_seq(now as nat),
                                    ) is Some
                                    &&& post == (StorageManager {
                                        companies: post.companies,
                                        crosschain_challenges: post.crosschain_challenges,
                                        monitoring_tasks: post.monitoring_tasks,
                                        security_events: post.security_events,
                                        community_alerts: post.community_alerts,
                                        ..pre
                                    })
                                },
                            }
                        }
                    },
                }
            }
        },
    }
}

impl CrossChainVerifier {
    /// Whether the expected challenge message was found in the fetched
    /// transaction list.
    pub fn verify_ethereum_challenge(
        etherscan_data: &EtherscanContractResponse,
        challenge_message: &str,
    ) -> (b: bool)
        ensures
            b == challenge_in_transactions(*etherscan_data, challenge_message@),
    {
        let txs = &etherscan_data.result;
        let mut i: usize = 0;
        while i < txs.len()
            invariant
                txs@ == etherscan_data.result@,
                i <= txs@.len(),
                forall|q: int| 0 <= q < i
                    ==> !occurs_in((#[trigger] txs@[q]).input@, challenge_message@),
            decreases txs@.len() - i,
        {
            if str_contains(txs[i].input.as_str(), challenge_message) {
                return true;
            }
            i = i + 1;
        }
        false
    }

    /// Second half of an Ethereum contract verification: decides from the
    /// fetched transaction list.  On success the contract is recorded,
    /// matching treasury wallets and token contracts are marked verified, a
    /// permanent proof is appended, the challenge is consumed, and a
    /// routine re-check is scheduled.
    #[verifier::rlimit(100)]
    #[verifier::spinoff_prover]
    pub fn complete_ethereum_verification(
        s: &mut StorageManager,
        company_id: &str,
        contract_address: &str,
        now: u64,
        outcome: EtherscanOutcome,
    ) -> (r: RegistryResult<VerificationResult>)
        requires
            old(s).wf(),
        ensures
            final(s).wf(),
            ethereum_verification_step(
                *old(s),
                *final(s),
                company_id@,
                contract_address@,
                now,
                outcome,
                r,
            ),
    {
        let challenge = Self::begin_chain_verification(
            s,
            company_id,
            "ethereum",
            contract_address,
            now,
        )?;
        let data = match outcome {
            EtherscanOutcome::Transport => {
                return Err(RegistryError::TransportFailed);
            },
            EtherscanOutcome::HttpError(_) => {
                return Err(RegistryError::ExternalServiceError);
            },
            EtherscanOutcome::Malformed => {
                return Err(RegistryError::ExternalServiceError);
            },
            EtherscanOutcome::Response(data) => data,
        };
        if !Self::verify_ethereum_challenge(&data, challenge.challenge_message.as_str()) {
            return Ok(VerificationResult {
                success: false,
                message: String::from_str(
                    "challenge message not found in recent transactions",
                ),
                verified_at: None,
            });
        }
        let i = match s.companies.index_of(company_id) {
            None => {
                return Err(RegistryError::CompanyNotFound);
            },
            Some(i) => i,
        };
        proof {
            s.companies.lemma_lookup_at(i as int);
        }
        let c = s.companies.remove_at(i);
        let c2 = apply_eth_acceptance(c, contract_address, &challenge.challenge_message, now);
        s.companies.insert_at(i, c2);
        proof {
            assert(s.crosschain_challenges == old(s).crosschain_challenges);
            if !has_chain_match(*old(s), company_id@, "ethereum"@, contract_address@) {
                assert(chain_challenge_lookup(
                    *old(s),
                    company_id@,
                    "ethereum"@,
                    contract_address@,
                ) is None);
                assert(false);
            }
            assert(has_chain_match(*s, company_id@, "ethereum"@, contract_address@));
        }
        finalize_eth_acceptance(s, company_id, contract_address, now);
        Ok(VerificationResult {
            success: true,
            message: String::from_str("contract verified; it will be monitored for activity"),
            verified_at: Some(now),
        })
    }
}

/// Consumes the outstanding Ethereum challenge for the target, schedules
/// the routine re-check, and records the audit event.
#[verifier::spinoff_prover]
fn finalize_eth_acceptance(
    s: &mut StorageManager,
    company_id: &str,
    contract_address: &str,
    now: u64,
)
    requires
        old(s).wf(),
        has_chain_match(*old(s), company_id@, "ethereum"@, contract_address@),
    ensures
        final(s).wf(),
        final(s).crosschain_challenges.items@ == old(s).crosschain_challenges.items@.remove(
            first_chain_match_idx(*old(s), company_id@, "ethereum"@, contract_address@),
        ),
        final(s).monitoring_tasks.lookup("task_"@ + decimal_seq(now as nat)) matches Some(t)
            && t.task_type == TaskType::ProofCheck && t.target_company_id@ == company_id@
            && (t.target_proof_id matches Some(p) && p@ == "ethereum_"@ + contract_address@
                + "_"@ + decimal_seq(now as nat))
            && t.scheduled_at == crate::monitoring::sat_add_spec(
                now,
                crate::monitoring::PROOF_CHECK_DELAY_NS,
            )
            && t.priority == TaskPriority::Medium && t.retry_count == 0 && t.max_retries == 3
            && t.last_error is None,
        final(s).security_events.lookup("evt_"@ + decimal_seq(now as nat)) is Some,
        *final(s) == (StorageManager {
            crosschain_challenges: final(s).crosschain_challenges,
            monitoring_tasks: final(s).monitoring_tasks,
            security_events: final(s).security_events,
            community_alerts: final(s).community_alerts,
            ..*old(s)
        }),
{
    let key = match s.find_crosschain_challenge_key(company_id, "ethereum", contract_address) {
        Some(k) => k,
        None => {
            proof {
                assert(false);
            }
            return;
        },
    };
    let ghost fi = choose|fi: int|
        0 <= fi < s.crosschain_challenges.items@.len()
            && (#[trigger] s.crosschain_challenges.items@[fi]).challenge_key@ == key@
            && s.crosschain_challenges.items@[fi].challenge.company_id@ == company_id@
            && chain_name_seq(s.crosschain_challenges.items@[fi].challenge.chain_type)
                == "ethereum"@
            && s.crosschain_challenges.items@[fi].challenge.address_or_contract@
                == contract_address@
            && (forall|j: int| 0 <= j < fi
                ==> !((#[trigger] s.crosschain_challenges.items@[j]).challenge.company_id@
                        == company_id@
                    && chain_name_seq(s.crosschain_challenges.items@[j].challenge.chain_type)
                        == "ethereum"@
                    && s.crosschain_challenges.items@[j].challenge.address_or_contract@
                        == contract_address@));
    proof {
        lemma_first_chain_match(*s, company_id@, "ethereum"@, contract_address@, fi);
        s.crosschain_challenges.lemma_lookup_at(fi);
    }
    let ghost pre_remove = *s;
    let _ = s.remove_crosschain_challenge(key.as_str());
    proof {
        let j = choose|j: int|
            0 <= j < pre_remove.crosschain_challenges.items@.len()
                && (#[trigger] pre_remove.crosschain_challenges.items@[j]).challenge_key@ == key@
                && s.crosschain_challenges.items@
                    == pre_remove.crosschain_challenges.items@.remove(j);
        assert(j == fi) by {
            if j != fi {
                assert(pre_remove.crosschain_challenges.items@[j].key()
                    == pre_remove.crosschain_challenges.items@[fi].key());
            }
        }
    }
    let proof_tag = String::from_str("ethereum_").concat(contract_address).concat("_").concat(
        decimal_string(now).as_str(),
    );
    MonitoringSystem::schedule_proof_monitoring(
        s,
        String::from_str(company_id),
        proof_tag,
        TaskPriority::Medium,
        now,
    );
    let _ = MonitoringSystem::log_security_event(
        s,
        SecurityEventType::SecurityScan,
        None,
        SecuritySeverity::Low,
        String::from_str("ethereum contract verified"),
        None,
        None,
        now,
    );
}

/// The company after a successful Bitcoin address verification: the
/// address recorded (no duplicate) and matching treasury wallets marked
/// verified.
pub open spec fn btc_company_updated(c: Company, c2: Company, addr: Seq<char>, now: u64) -> bool {
    let addrs = c.cross_chain_presence.bitcoin_addresses@;
    let addrs2 = c2.cross_chain_presence.bitcoin_addresses@;
    &&& if string_list_contains(addrs, addr) {
        addrs2 == addrs
    } else {
        addrs2.len() == addrs.len() + 1 && addrs2.subrange(0, addrs.len() as int) == addrs
            && addrs2.last()@ == addr
    }
    &&& c2.cross_chain_presence.treasury_wallets@ == wallets_marked(
        c.cross_chain_presence.treasury_wallets@,
        addr,
        "bitcoin"@,
    )
    &&& c2.cross_chain_presence == (crate::types::CrossChainPresence {
        bitcoin_addresses: c2.cross_chain_presence.bitcoin_addresses,
        treasury_wallets: c2.cross_chain_presence.treasury_wallets,
        ..c.cross_chain_presence
    })
    &&& c2 == (Company {
        cross_chain_presence: c2.cross_chain_presence,
        updated_at: now,
        ..c
    })
}

/// The full behaviour of completing a Bitcoin address verification against
/// the fetched address record.
pub open spec fn bitcoin_verification_step(
    pre: StorageManager,
    post: StorageManager,
    company_id: Seq<char>,
    address: Seq<char>,
    now: u64,
    outcome: BitcoinOutcome,
    r: RegistryResult<VerificationResult>,
) -> bool {
    match chain_challenge_lookup(pre, company_id, "bitcoin"@, address) {
        None => r == Err::<VerificationResult, RegistryError>(RegistryError::ChallengeNotFound)
            && post == pre,
        Some(ch) => {
            if now > ch.expires_at {
                &&& r == Err::<VerificationResult, RegistryError>(RegistryError::ChallengeExpired)
                &&& post.crosschain_challenges.items@ == pre.crosschain_challenges.items@.remove(
                    first_chain_match_idx(pre, company_id, "bitcoin"@, address),
                )
                &&& post == (StorageManager {
                    crosschain_challenges: post.crosschain_challenges,
                    ..pre
                })
            } else {
                match outcome {
                    BitcoinOutcome::Transport => {
                        r == Err::<VerificationResult, RegistryError>(
                            RegistryError::TransportFailed,
                        ) && post == pre
                    },
                    BitcoinOutcome::HttpError(_) => {
                        r == Err::<VerificationResult, RegistryError>(
                            RegistryError::ExternalServiceError,
                        ) && post == pre
                    },
                    BitcoinOutcome::Malformed => {
                        r == Err::<VerificationResult, RegistryError>(
                            RegistryError::ExternalServiceError,
                        ) && post == pre
                    },
                    BitcoinOutcome::Response(data) => {
                        if data.n_tx == 0 {
                            // No activity: a non-error refusal; the
                            // challenge stays for a retry.
                            r matches Ok(v) && !v.success && v.verified_at is None && post == pre
                        } else {
                            match pre.company_of(company_id) {
                                None => r == Err::<VerificationResult, RegistryError>(
                                    RegistryError::CompanyNotFound,
                                ) && post == pre,
                                Some(c) => {
                                    &&& r matches Ok(v) && v.success && v.verified_at == Some(now)
                                    &&& post.company_of(company_id) matches Some(c2)
                                        && btc_company_updated(c, c2, address, now)
                                    &&& (forall|k: Seq<char>| k != company_id
                                        ==> #[trigger] post.company_of(k) == pre.company_of(k))
                                    &&& post.crosschain_challenges.items@
                                        == pre.crosschain_challenges.items@.remove(
                                        first_chain_match_idx(pre, company_id, "bitcoin"@, address),
                                    )
                                    &&& post == (StorageManager {
                                        companies: post.companies,
                                        crosschain_challenges: post.crosschain_challenges,
                                        ..pre
                                    })
                                },
                            }
                        }
                    },
                }
            }
        },
    }
}

/// The full behaviour of a canister verification: the identifier's shape
/// decides, with the same challenge discipline as the other chains.
pub open spec fn canister_verification_step(
    pre: StorageManager,
    post: StorageManager,
    company_id: Seq<char>,
    canister_id: Seq<char>,
    now: u64,
    r: RegistryResult<VerificationResult>,
) -> bool {
    match chain_challenge_lookup(pre, company_id, "icp"@, canister_id) {
        None => r == Err::<VerificationResult, RegistryError>(RegistryError::ChallengeNotFound)
            && post == pre,
        Some(ch) => {
            if now > ch.expires_at {
                &&& r == Err::<VerificationResult, RegistryError>(RegistryError::ChallengeExpired)
                &&& post.crosschain_challenges.items@ == pre.crosschain_challenges.items@.remove(
                    first_chain_match_idx(pre, company_id, "icp"@, canister_id),
                )
                &&& post == (StorageManager {
                    crosschain_challenges: post.crosschain_challenges,
                    ..pre
                })
            } else if !is_canister_id_text(canister_id) {
                r matches Ok(v) && !v.success && v.verified_at is None && post == pre
            } else {
                match pre.company_of(company_id) {
                    None => r == Err::<VerificationResult, RegistryError>(
                        RegistryError::CompanyNotFound,
                    ) && post == pre,
                    Some(c) => {
                        &&& r matches Ok(v) && v.success && v.verified_at == Some(now)
                        &&& post.company_of(company_id) matches Some(c2)
                            && icp_company_updated(c, c2, canister_id, now)
                        &&& (forall|k: Seq<char>| k != company_id
                            ==> #[trigger] post.company_of(k) == pre.company_of(k))
                        &&& post.crosschain_challenges.items@
                            == pre.crosschain_challenges.items@.remove(
                            first_chain_match_idx(pre, company_id, "icp"@, canister_id),
                        )
                        &&& post == (StorageManager {
                            companies: post.companies,
                            crosschain_challenges: post.crosschain_challenges,
                            ..pre
                        })
                    },
                }
            }
        },
    }
}

/// The company after a successful canister verification: the identifier
/// recorded (no duplicate).
pub open spec fn icp_company_updated(c: Company, c2: Company, canister_id: Seq<char>, now: u64) -> bool {
    let ids = c.cross_chain_presence.icp_canisters@;
    let ids2 = c2.cross_chain_presence.icp_canisters@;
    &&& if string_list_contains(ids, canister_id) {
        ids2 == ids
    } else {
        ids2.len() == ids.len() + 1 && ids2.subrange(0, ids.len() as int) == ids
            && ids2.last()@ == canister_id
    }
    &&& c2.cross_chain_presence == (crate::types::CrossChainPresence {
        icp_canisters: c2.cross_chain_presence.icp_canisters,
        ..c.cross_chain_presence
    })
    &&& c2 == (Company {
        cross_chain_presence: c2.cross_chain_presence,
        updated_at: now,
        ..c
    })
}

/// Consumes the outstanding challenge for a target (the earliest match),
/// leaving everything else untouched.
#[verifier::spinoff_prover]
fn consume_chain_challenge(s: &mut StorageManager, company_id: &str, chain: &str, address: &str)
    requires
        old(s).wf(),
        has_chain_match(*old(s), company_id@, chain@, address@),
    ensures
        final(s).wf(),
        final(s).crosschain_challenges.items@ == old(s).crosschain_challenges.items@.remove(
            first_chain_match_idx(*old(s), company_id@, chain@, address@),
        ),
        *final(s) == (StorageManager {
            crosschain_challenges: final(s).crosschain_challenges,
            ..*old(s)
        }),
{
    let key = match s.find_crosschain_challenge_key(company_id, chain, address) {
        Some(k) => k,
        None => {
            proof {
                assert(false);
            }
            return;
        },
    };
    let ghost fi = choose|fi: int|
        0 <= fi < s.crosschain_challenges.items@.len()
            && (#[trigger] s.crosschain_challenges.items@[fi]).challenge_key@ == key@
            && s.crosschain_challenges.items@[fi].challenge.company_id@ == company_id@
            && chain_name_seq(s.crosschain_challenges.items@[fi].challenge.chain_type) == chain@
            && s.crosschain_challenges.items@[fi].challenge.address_or_contract@ == address@
            && (forall|j: int| 0 <= j < fi
                ==> !((#[trigger] s.crosschain_challenges.items@[j]).challenge.company_id@
                        == company_id@
                    && chain_name_seq(s.crosschain_challenges.items@[j].challenge.chain_type)
                        == chain@
                    && s.crosschain_challenges.items@[j].challenge.address_or_contract@
                        == address@));
    proof {
        lemma_first_chain_match(*s, company_id@, chain@, address@, fi);
        s.crosschain_challenges.lemma_lookup_at(fi);
    }
    let ghost pre_remove = *s;
    let _ = s.remove_crosschain_challenge(key.as_str());
    proof {
        let j = choose|j: int|
            0 <= j < pre_remove.crosschain_challenges.items@.len()
                && (#[trigger] pre_remove.crosschain_challenges.items@[j]).challenge_key@ == key@
                && s.crosschain_challenges.items@
                    == pre_remove.crosschain_challenges.items@.remove(j);
        assert(j == fi) by {
            if j != fi {
                assert(pre_remove.crosschain_challenges.items@[j].key()
                    == pre_remove.crosschain_challenges.items@[fi].key());
            }
        }
    }
}

/// Applies a successful Bitcoin verification to a company.
#[verifier::spinoff_prover]
fn apply_btc_acceptance(c: Company, address: &str, now: u64) -> (c2: Company)
    ensures
        btc_company_updated(c, c2, address@, now),
        c2.id@ == c.id@,
        c2.verification_score == c.verification_score,
{
    let mut c2 = c;
    if !string_vec_contains(&c2.cross_chain_presence.bitcoin_addresses, address) {
        c2.cross_chain_presence.bitcoin_addresses.push(String::from_str(address));
        proof {
            let n = c2.cross_chain_presence.bitcoin_addresses@.len();
            assert((c2.cross_chain_presence.bitcoin_addresses@[n - 1])@ == address@);
            assert(c2.cross_chain_presence.bitcoin_addresses@.subrange(
                0,
                c.cross_chain_presence.bitcoin_addresses@.len() as int,
            ) =~= c.cross_chain_presence.bitcoin_addresses@);
        }
    }
    mark_wallets(&mut c2.cross_chain_presence.treasury_wallets, address, "bitcoin");
    proof {
        reveal_strlit("bitcoin");
    }
    c2.updated_at = now;
    c2
}

/// Applies a successful canister verification to a company.
#[verifier::spinoff_prover]
fn apply_icp_acceptance(c: Company, canister_id: &str, now: u64) -> (c2: Company)
    ensures
        icp_company_updated(c, c2, canister_id@, now),
        c2.id@ == c.id@,
        c2.verification_score == c.verification_score,
{
    let mut c2 = c;
    if !string_vec_contains(&c2.cross_chain_presence.icp_canisters, canister_id) {
        c2.cross_chain_presence.icp_canisters.push(String::from_str(canister_id));
        proof {
            let n = c2.cross_chain_presence.icp_canisters@.len();
            assert((c2.cross_chain_presence.icp_canisters@[n - 1])@ == canister_id@);
            assert(c2.cross_chain_presence.icp_canisters@.subrange(
                0,
                c.cross_chain_presence.icp_canisters@.len() as int,
            ) =~= c.cross_chain_presence.icp_canisters@);
        }
    }
    c2.updated_at = now;
    c2
}

impl CrossChainVerifier {
    /// Second half of a Bitcoin address verification: the address counts
    /// as controlled when the fetched record shows transaction history.
    /// The exact behaviour is [`bitcoin_verification_step`].
    #[verifier::rlimit(100)]
    #[verifier::spinoff_prover]
    pub fn complete_bitcoin_verification(
        s: &mut StorageManager,
        company_id: &str,
        bitcoin_address: &str,
        now: u64,
        outcome: BitcoinOutcome,
    ) -> (r: RegistryResult<VerificationResult>)
        requires
            old(s).wf(),
        ensures
            final(s).wf(),
            bitcoin_verification_step(
                *old(s),
                *final(s),
                company_id@,
                bitcoin_address@,
                now,
                outcome,
                r,
            ),
    {
        let _challenge = Self::begin_chain_verification(
            s,
            company_id,
            "bitcoin",
            bitcoin_address,
            now,
        )?;
        let data = match outcome {
            BitcoinOutcome::Transport => {
                return Err(RegistryError::TransportFailed);
            },
            BitcoinOutcome::HttpError(_) => {
                return Err(RegistryError::ExternalServiceError);
            },
            BitcoinOutcome::Malformed => {
                return Err(RegistryError::ExternalServiceError);
            },
            BitcoinOutcome::Response(data) => data,
        };
        if data.n_tx == 0 {
            return Ok(VerificationResult {
                success: false,
                message: String::from_str("address has no transaction history"),
                verified_at: None,
            });
        }
        let i = match s.companies.index_of(company_id) {
            None => {
                return Err(RegistryError::CompanyNotFound);
            },
            Some(i) => i,
        };
        proof {
            s.companies.lemma_lookup_at(i as int);
        }
        let c = s.companies.remove_at(i);
        let c2 = apply_btc_acceptance(c, bitcoin_address, now);
        s.companies.insert_at(i, c2);
        proof {
            assert(s.crosschain_challenges == old(s).crosschain_challenges);
            if !has_chain_match(*old(s), company_id@, "bitcoin"@, bitcoin_address@) {
                assert(chain_challenge_lookup(
                    *old(s),
                    company_id@,
                    "bitcoin"@,
                    bitcoin_address@,
                ) is None);
                assert(false);
            }
            assert(has_chain_match(*s, company_id@, "bitcoin"@, bitcoin_address@));
        }
        consume_chain_challenge(s, company_id, "bitcoin", bitcoin_address);
        Ok(VerificationResult {
            success: true,
            message: String::from_str("bitcoin address verified"),
            verified_at: Some(now),
        })
    }

    /// Canister verification: the identifier's shape is checked against the
    /// outstanding challenge; a valid identifier is recorded.  The exact
    /// behaviour is [`canister_verification_step`].
    #[verifier::rlimit(100)]
    #[verifier::spinoff_prover]
    pub fn verify_icp_canister(
        s: &mut StorageManager,
        company_id: &str,
        canister_id: &str,
        now: u64,
    ) -> (r: RegistryResult<VerificationResult>)
        requires
            old(s).wf(),
        ensures
            final(s).wf(),
            canister_verification_step(*old(s), *final(s), company_id@, canister_id@, now, r),
    {
        let _challenge = Self::begin_chain_verification(s, company_id, "icp", canister_id, now)?;
        if !Self::is_valid_canister_id(canister_id) {
            return Ok(VerificationResult {
                success: false,
                message: String::from_str("invalid canister identifier format"),
                verified_at: None,
            });
        }
        let i = match s.companies.index_of(company_id) {
            None => {
                return Err(RegistryError::CompanyNotFound);
            },
            Some(i) => i,
        };
        proof {
            s.companies.lemma_lookup_at(i as int);
        }
        let c = s.companies.remove_at(i);
        let c2 = apply_icp_acceptance(c, canister_id, now);
        s.companies.insert_at(i, c2);
        proof {
            assert(s.crosschain_challenges == old(s).crosschain_challenges);
            if !has_chain_match(*old(s), company_id@, "icp"@, canister_id@) {
                assert(chain_challenge_lookup(*old(s), company_id@, "icp"@, canister_id@) is None);
                assert(false);
            }
            assert(has_chain_match(*s, company_id@, "icp"@, canister_id@));
        }
        consume_chain_challenge(s, company_id, "icp", canister_id);
        Ok(VerificationResult {
            success: true,
            message: String::from_str("canister verified"),
            verified_at: Some(now),
        })
    }
    /// Human-readable steps for each chain's verification flow.
    pub fn get_crosschain_verification_instructions(chain_type: ChainType) -> (r: String)
    {
        match chain_type {
            ChainType::Ethereum => String::from_str(
                "To verify an Ethereum contract: create a cross-chain challenge, send a \
                 transaction to the contract carrying the challenge message in its input \
                 data, then complete the verification; recent transactions are checked for \
                 the message.",
            ),
            ChainType::Bitcoin => String::from_str(
                "To verify a Bitcoin address: create a cross-chain challenge, make sure the \
                 address has at least one transaction, then complete the verification; the \
                 address record is checked for activity.",
            ),
            ChainType::ICP => String::from_str(
                "To verify a canister: create a cross-chain challenge for the canister \
                 identifier, make sure you control the canister, then complete the \
                 verification; the identifier's shape is checked.",
            ),
            ChainType::Polygon => String::from_str(
                "To verify a Polygon contract: create a cross-chain challenge, send a \
                 transaction carrying the challenge message, then complete the \
                 verification, as with an Ethereum contract.",
            ),
            ChainType::Solana => String::from_str(
                "To verify a Solana address: create a cross-chain challenge, perform a \
                 transaction or program interaction from the address, then complete the \
                 verification.",
            ),
            ChainType::Sui => String::from_str(
                "To verify a Sui address: create a cross-chain challenge, perform a \
                 transaction or object interaction from the address, then complete the \
                 verification.",
            ),
            ChainType::TON => String::from_str(
                "To verify a TON address: create a cross-chain challenge, send a \
                 transaction or message from the address, then complete the verification.",
            ),
        }
    }

    /// Enumerates the targets of an owner-triggered portfolio re-check:
    /// every declared Ethereum contract, Bitcoin address and canister, in
    /// that order.  The runtime fetches evidence per target and completes
    /// each verification individually.
    pub fn begin_multi_chain_portfolio(
        s: &mut StorageManager,
        company_id: &str,
        caller_principal: Principal,
        now: u64,
    ) -> (r: RegistryResult<Vec<(ChainType, String)>>)
        requires
            old(s).wf(),
        ensures
            final(s).wf(),
            *final(s) == (StorageManager {
                security_events: final(s).security_events,
                community_alerts: final(s).community_alerts,
                ..*old(s)
            }),
            match r {
                Ok(v) => {
                    &&& old(s).company_of(company_id@) matches Some(c)
                        && c.created_by == caller_principal
                    &&& ({
                        let p = old(s).company_of(company_id@).unwrap().cross_chain_presence;
                        let ne = p.ethereum_contracts@.len() as int;
                        let nb = p.bitcoin_addresses@.len() as int;
                        let ni = p.icp_canisters@.len() as int;
                        &&& v@.len() == ne + nb + ni
                        &&& (forall|i: int| 0 <= i < ne
                            ==> (#[trigger] v@[i]).0 == ChainType::Ethereum
                                && v@[i].1@ == p.ethereum_contracts@[i]@)
                        &&& (forall|i: int| 0 <= i < nb
                            ==> (#[trigger] v@[ne + i]).0 == ChainType::Bitcoin
                                && v@[ne + i].1@ == p.bitcoin_addresses@[i]@)
                        &&& (forall|i: int| 0 <= i < ni
                            ==> (#[trigger] v@[ne + nb + i]).0 == ChainType::ICP
                                && v@[ne + nb + i].1@ == p.icp_canisters@[i]@)
                    })
                },
                Err(RegistryError::CompanyNotFound) => old(s).company_of(company_id@) is None,
                Err(RegistryError::Unauthorized) => old(s).company_of(company_id@)
                    matches Some(c) && c.created_by != caller_principal,
                Err(_) => false,
            },
    {
        let i = match s.companies.index_of(company_id) {
            None => {
                let _ = MonitoringSystem::log_security_event(
                    s,
                    SecurityEventType::SuspiciousInput,
                    Some(caller_principal),
                    SecuritySeverity::Low,
                    String::from_str(
                        "portfolio verification attempted for a company that does not exist",
                    ),
                    None,
                    None,
                    now,
                );
                return Err(RegistryError::CompanyNotFound);
            },
            Some(i) => i,
        };
        proof {
            s.companies.lemma_lookup_at(i as int);
        }
        if !(s.companies.items[i].created_by == caller_principal) {
            let _ = MonitoringSystem::log_security_event(
                s,
                SecurityEventType::UnauthorizedAccess,
                Some(caller_principal),
                SecuritySeverity::Medium,
                String::from_str("unauthorized portfolio verification attempt"),
                None,
                None,
                now,
            );
            return Err(RegistryError::Unauthorized);
        }
        let ghost p = s.companies.items@[i as int].cross_chain_presence;
        let mut targets: Vec<(ChainType, String)> = Vec::new();
        let eth = &s.companies.items[i].cross_chain_presence.ethereum_contracts;
        let mut a: usize = 0;
        while a < eth.len()
            invariant
                i < s.companies.items@.len(),
                p == s.companies.items@[i as int].cross_chain_presence,
                eth@ == p.ethereum_contracts@,
                a <= eth@.len(),
                targets@.len() == a,
                forall|q: int| 0 <= q < a
                    ==> (#[trigger] targets@[q]).0 == ChainType::Ethereum
                        && targets@[q].1@ == p.ethereum_contracts@[q]@,
            decreases eth@.len() - a,
        {
            targets.push((ChainType::Ethereum, eth[a].clone()));
            a = a + 1;
        }
        let ghost ne = p.ethereum_contracts@.len() as int;
        let btc = &s.companies.items[i].cross_chain_presence.bitcoin_addresses;
        let mut b: usize = 0;
        while b < btc.len()
            invariant
                i < s.companies.items@.len(),
                p == s.companies.items@[i as int].cross_chain_presence,
                btc@ == p.bitcoin_addresses@,
                ne == p.ethereum_contracts@.len() as int,
                b <= btc@.len(),
                targets@.len() == ne + b,
                forall|q: int| 0 <= q < ne
                    ==> (#[trigger] targets@[q]).0 == ChainType::Ethereum
                        && targets@[q].1@ == p.ethereum_contracts@[q]@,
                forall|q: int| 0 <= q < b
                    ==> (#[trigger] targets@[ne + q]).0 == ChainType::Bitcoin
                        && targets@[ne + q].1@ == p.bitcoin_addresses@[q]@,
            decreases btc@.len() - b,
        {
            targets.push((ChainType::Bitcoin, btc[b].clone()));
            b = b + 1;
        }
        let ghost nb = p.bitcoin_addresses@.len() as int;
        let icp = &s.companies.items[i].cross_chain_presence.icp_canisters;
        let mut d: usize = 0;
        while d < icp.len()
            invariant
                i < s.companies.items@.len(),
                p == s.companies.items@[i as int].cross_chain_presence,
                icp@ == p.icp_canisters@,
                ne == p.ethereum_contracts@.len() as int,
                nb == p.bitcoin_addresses@.len() as int,
                d <= icp@.len(),
                targets@.len() == ne + nb + d,
                forall|q: int| 0 <= q < ne
                    ==> (#[trigger] targets@[q]).0 == ChainType::Ethereum
                        && targets@[q].1@ == p.ethereum_contracts@[q]@,
                forall|q: int| 0 <= q < nb
                    ==> (#[trigger] targets@[ne + q]).0 == ChainType::Bitcoin
                        && targets@[ne + q].1@ == p.bitcoin_addresses@[q]@,
                forall|q: int| 0 <= q < d
                    ==> (#[trigger] targets@[ne + nb + q]).0 == ChainType::ICP
                        && targets@[ne + nb + q].1@ == p.icp_canisters@[q]@,
            decreases icp@.len() - d,
        {
            targets.push((ChainType::ICP, icp[d].clone()));
            d = d + 1;
        }
        let _ = MonitoringSystem::log_security_event(
            s,
            SecurityEventType::SecurityScan,
            Some(caller_principal),
            SecuritySeverity::Low,
            String::from_str("portfolio verification target enumeration completed"),
            None,
            None,
            now,
        );
        Ok(targets)
    }
}

// ---------------------------------------------------------------------------
// Risk assessment
// ---------------------------------------------------------------------------

/// How many chain categories carry at least one declared entry.
pub open spec fn active_chain_count(p: crate::types::CrossChainPresence) -> int {
    (if p.ethereum_contracts@.len() > 0 { 1int } else { 0int })
        + (if p.bitcoin_addresses@.len() > 0 { 1int } else { 0int })
        + (if p.icp_canisters@.len() > 0 { 1int } else { 0int })
        + (if p.solana_addresses@.len() > 0 { 1int } else { 0int })
        + (if p.sui_addresses@.len() > 0 { 1int } else { 0int })
        + (if p.ton_addresses@.len() > 0 { 1int } else { 0int })
}

/// All declared addresses across the chain categories.
pub open spec fn total_declared_addresses(p: crate::types::CrossChainPresence) -> int {
    p.ethereum_contracts@.len() as int + p.bitcoin_addresses@.len() as int
        + p.icp_canisters@.len() as int + p.solana_addresses@.len() as int
        + p.sui_addresses@.len() as int + p.ton_addresses@.len() as int
}

/// The heuristic risk score: low diversification, a low verified ratio,
/// address sprawl, and treasury sprawl each add a fixed weight.
pub open spec fn risk_score_spec(p: crate::types::CrossChainPresence) -> int {
    let total = total_declared_addresses(p);
    let verified = filtered(p.treasury_wallets@, |w: WalletInfo| w.verified).len() as int;
    (if active_chain_count(p) < 2 { 20int } else { 0int })
        + (if total > 0 && verified < total / 2 { 30int } else { 0int })
        + (if total > 50 { 25int } else { 0int })
        + (if p.treasury_wallets@.len() > 20 { 15int } else { 0int })
}

/// The band a risk score falls in.
pub open spec fn risk_level_seq(score: int) -> Seq<char> {
    if score <= 20 { "Low"@ }
    else if score <= 50 { "Medium"@ }
    else if score <= 80 { "High"@ }
    else { "Critical"@ }
}

impl CrossChainVerifier {
    /// Assesses a company's cross-chain risk and records the assessment as
    /// an audit event.  The message carries the band and the exact score.
    #[verifier::rlimit(100)]
    pub fn assess_cross_chain_risk(s: &mut StorageManager, company_id: String, now: u64) -> (r:
        RegistryResult<String>)
        requires
            old(s).wf(),
        ensures
            final(s).wf(),
            *final(s) == (StorageManager {
                security_events: final(s).security_events,
                community_alerts: final(s).community_alerts,
                ..*old(s)
            }),
            match r {
                Ok(msg) => old(s).company_of(company_id@) matches Some(c) && msg@ == "Risk Level: "@
                    + risk_level_seq(risk_score_spec(c.cross_chain_presence)) + " (Score: "@
                    + decimal_seq(risk_score_spec(c.cross_chain_presence) as nat) + ")"@,
                Err(e) => e == RegistryError::CompanyNotFound
                    && old(s).company_of(company_id@) is None,
            },
    {
        let i = match s.companies.index_of(company_id.as_str()) {
            None => {
                return Err(RegistryError::CompanyNotFound);
            },
            Some(i) => i,
        };
        proof {
            s.companies.lemma_lookup_at(i as int);
        }
        let ghost c = s.companies.items@[i as int];
        let p = &s.companies.items[i].cross_chain_presence;

        let mut active: u32 = 0;
        if p.ethereum_contracts.len() > 0 { active = active + 1; }
        if p.bitcoin_addresses.len() > 0 { active = active + 1; }
        if p.icp_canisters.len() > 0 { active = active + 1; }
        if p.solana_addresses.len() > 0 { active = active + 1; }
        if p.sui_addresses.len() > 0 { active = active + 1; }
        if p.ton_addresses.len() > 0 { active = active + 1; }
        proof {
            assert(active == active_chain_count(c.cross_chain_presence));
        }

        let total: u128 = p.ethereum_contracts.len() as u128 + p.bitcoin_addresses.len() as u128
            + p.icp_canisters.len() as u128 + p.solana_addresses.len() as u128
            + p.sui_addresses.len() as u128 + p.ton_addresses.len() as u128;

        let ghost verified_w = |w: WalletInfo| w.verified;
        let wallets = &s.companies.items[i].cross_chain_presence.treasury_wallets;
        let mut verified: u128 = 0;
        let mut j: usize = 0;
        proof {
            assert(wallets@.subrange(0, 0) =~= Seq::<WalletInfo>::empty());
        }
        while j < wallets.len()
            invariant
                wallets@ == c.cross_chain_presence.treasury_wallets@,
                j <= wallets@.len(),
                verified == filtered(wallets@.subrange(0, j as int), verified_w).len(),
                verified <= j,
                verified_w == (|w: WalletInfo| w.verified),
            decreases wallets@.len() - j,
        {
            if wallets[j].verified {
                verified = verified + 1;
            }
            j = j + 1;
            proof {
                let prefix = wallets@.subrange(0, j as int);
                assert(prefix.drop_last() =~= wallets@.subrange(0, j - 1));
                assert(prefix.last() == wallets@[j - 1]);
            }
        }
        proof {
            assert(wallets@.subrange(0, wallets@.len() as int) =~= wallets@);
        }

        let mut score: u32 = 0;
        if active < 2 {
            score = score + 20;
        }
        if total > 0 && verified < total / 2 {
            score = score + 30;
        }
        if total > 50 {
            score = score + 25;
        }
        if wallets.len() > 20 {
            score = score + 15;
        }
        proof {
            assert(score == risk_score_spec(c.cross_chain_presence));
        }
        let level: &'static str = if score <= 20 { "Low" }
        else if score <= 50 { "Medium" }
        else if score <= 80 { "High" }
        else { "Critical" };
        let severity = if score <= 20 {
            SecuritySeverity::Low
        } else if score <= 50 {
            SecuritySeverity::Medium
        } else {
            SecuritySeverity::High
        };
        let msg = String::from_str("Risk Level: ").concat(level).concat(" (Score: ").concat(
            decimal_string(score as u64).as_str(),
        ).concat(")");
        let _ = MonitoringSystem::log_security_event(
            s,
            SecurityEventType::SecurityScan,
            None,
            severity,
            msg.clone(),
            None,
            None,
            now,
        );
        Ok(msg)
    }

    /// Validates an address's shape, refuses known burn or placeholder
    /// targets, and bounds its length; refusals are audited.
    pub fn validate_address_with_security_check(
        s: &mut StorageManager,
        chain_type: &ChainType,
        address: &str,
        caller_principal: Principal,
        now: u64,
    ) -> (r: RegistryResult<bool>)
        requires
            old(s).wf(),
        ensures
            final(s).wf(),
            *final(s) == (StorageManager {
                security_events: final(s).security_events,
                community_alerts: final(s).community_alerts,
                ..*old(s)
            }),
            r is Ok <==> (address_format_ok(*chain_type, address@)
                && !suspicious_address(address@) && address@.len() <= 200),
            r matches Ok(b) ==> b,
            r matches Err(e) ==> e == RegistryError::InvalidInput,
    {
        if let Err(_) = Self::validate_address_format(chain_type, address) {
            let _ = MonitoringSystem::log_security_event(
                s,
                SecurityEventType::SuspiciousInput,
                Some(caller_principal),
                SecuritySeverity::Low,
                String::from_str("invalid address format refused"),
                None,
                None,
                now,
            );
            return Err(RegistryError::InvalidInput);
        }
        let bad = str_contains(address, "0x0000000000000000000000000000000000000000")
            || str_contains(address, "1111111111111111111114oLvT2")
            || str_contains(address, "aaaaa-aa");
        if bad {
            let _ = MonitoringSystem::log_security_event(
                s,
                SecurityEventType::SuspiciousInput,
                Some(caller_principal),
                SecuritySeverity::High,
                String::from_str("suspicious address pattern refused"),
                None,
                None,
                now,
            );
            return Err(RegistryError::InvalidInput);
        }
        if address.unicode_len() > 200 {
            let _ = MonitoringSystem::log_security_event(
                s,
                SecurityEventType::SuspiciousInput,
                Some(caller_principal),
                SecuritySeverity::Medium,
                String::from_str("excessively long address refused"),
                None,
                None,
                now,
            );
            return Err(RegistryError::InvalidInput);
        }
        Ok(true)
    }
}

/// Known burn and placeholder address fragments.
pub open spec fn suspicious_address(a: Seq<char>) -> bool {
    occurs_in(a, "0x0000000000000000000000000000000000000000"@)
        || occurs_in(a, "1111111111111111111114oLvT2"@) || occurs_in(a, "aaaaa-aa"@)
}

/// Applies a successful Ethereum verification to a company: records the
/// contract, marks matching wallets and tokens verified, and appends the
/// permanent proof record.
#[verifier::spinoff_prover]
fn apply_eth_acceptance(
    c: Company,
    contract_address: &str,
    challenge_message: &String,
    now: u64,
) -> (c2: Company)
    ensures
        eth_company_updated(c, c2, contract_address@, challenge_message@, now),
        c2.id@ == c.id@,
        c2.verification_score == c.verification_score,
{
    let mut c2 = c;
    if !string_vec_contains(&c2.cross_chain_presence.ethereum_contracts, contract_address) {
        c2.cross_chain_presence.ethereum_contracts.push(String::from_str(contract_address));
        proof {
            let n = c2.cross_chain_presence.ethereum_contracts@.len();
            assert((c2.cross_chain_presence.ethereum_contracts@[n - 1])@ == contract_address@);
            assert(c2.cross_chain_presence.ethereum_contracts@.subrange(
                0,
                c.cross_chain_presence.ethereum_contracts@.len() as int,
            ) =~= c.cross_chain_presence.ethereum_contracts@);
        }
    }
    mark_wallets(&mut c2.cross_chain_presence.treasury_wallets, contract_address, "ethereum");
    mark_tokens(&mut c2.cross_chain_presence.token_contracts, contract_address, "ethereum");
    proof {
        reveal_strlit("ethereum");
    }
    let ghost proofs_before = c2.web3_identity.verification_proofs@;
    c2.web3_identity.verification_proofs.push(VerificationProof {
        verification_type: VerificationType::GitHub,
        proof_url: String::from_str("https://etherscan.io/address/").concat(contract_address),
        verified_at: now,
        verification_method: VerificationMethod::Automated,
        challenge_data: Some(challenge_message.clone()),
        status: ProofStatus::Active,
    });
    c2.updated_at = now;
    proof {
        assert(c2.web3_identity.verification_proofs@.subrange(
            0,
            proofs_before.len() as int,
        ) =~= proofs_before);
    }
    c2
}

/// Whether a list of strings holds the given text.
fn string_vec_contains(ss: &Vec<String>, a: &str) -> (b: bool)
    ensures
        b == string_list_contains(ss@, a@),
{
    let mut i: usize = 0;
    while i < ss.len()
        invariant
            i <= ss@.len(),
            forall|q: int| 0 <= q < i ==> (#[trigger] ss@[q])@ != a@,
        decreases ss@.len() - i,
    {
        if str_eq(ss[i].as_str(), a) {
            return true;
        }
        i = i + 1;
    }
    false
}

/// Marks matching treasury wallets verified, in place.
fn mark_wallets(ws: &mut Vec<WalletInfo>, addr: &str, chain: &str)
    ensures
        final(ws)@ == wallets_marked(old(ws)@, addr@, chain@),
{
    let ghost orig = old(ws)@;
    let mut j: usize = 0;
    while j < ws.len()
        invariant
            ws@.len() == orig.len(),
            j <= orig.len(),
            forall|q: int| 0 <= q < j
                ==> #[trigger] ws@[q] == wallets_marked(orig, addr@, chain@)[q],
            forall|q: int| j <= q < orig.len() ==> #[trigger] ws@[q] == orig[q],
        decreases orig.len() - j,
    {
        if str_eq(ws[j].address.as_str(), addr) && str_eq(ws[j].chain.as_str(), chain) {
            let mut w = ws.remove(j);
            w.verified = true;
            ws.insert(j, w);
        }
        j = j + 1;
    }
    proof {
        assert(ws@ =~= wallets_marked(orig, addr@, chain@));
    }
}

/// Marks matching token contracts verified, in place.
fn mark_tokens(ts: &mut Vec<TokenInfo>, addr: &str, chain: &str)
    ensures
        final(ts)@ == tokens_marked(old(ts)@, addr@, chain@),
{
    let ghost orig = old(ts)@;
    let mut j: usize = 0;
    while j < ts.len()
        invariant
            ts@.len() == orig.len(),
            j <= orig.len(),
            forall|q: int| 0 <= q < j
                ==> #[trigger] ts@[q] == tokens_marked(orig, addr@, chain@)[q],
            forall|q: int| j <= q < orig.len() ==> #[trigger] ts@[q] == orig[q],
        decreases orig.len() - j,
    {
        if str_eq(ts[j].contract_address.as_str(), addr) && str_eq(ts[j].chain.as_str(), chain) {
            let mut t = ts.remove(j);
            t.verified = true;
            ts.insert(j, t);
        }
        j = j + 1;
    }
    proof {
        assert(ts@ =~= tokens_marked(orig, addr@, chain@));
    }
}

} // verus!
