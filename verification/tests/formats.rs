//! Address grammars, sanitizers, URL validation, text rendering, and the
//! chain-risk assessment.

use crosschain_registry::api::RegistryAPI;
use crosschain_registry::crosschain::CrossChainVerifier;
use crosschain_registry::monitoring::MonitoringSystem;
use crosschain_registry::storage::StorageManager;
use crosschain_registry::text;
use crosschain_registry::types::{
    ChainType, Company, CommunityValidation, CompanyBasicInfo, CompanyStatus, CrossChainPresence,
    CrossChainVerificationMethod, CrossChainVerificationRequest, EtherscanContractResponse,
    EtherscanOutcome, EtherscanTransaction, Principal, RegistryError, VerificationStatus,
    WalletInfo, Web3Identity,
};
use crosschain_registry::verification::VerificationManager;

fn presence() -> CrossChainPresence {
    CrossChainPresence {
        ethereum_contracts: Vec::new(),
        bitcoin_addresses: Vec::new(),
        icp_canisters: Vec::new(),
        polygon_contracts: Vec::new(),
        solana_addresses: Vec::new(),
        sui_addresses: Vec::new(),
        ton_addresses: Vec::new(),
        treasury_wallets: Vec::new(),
        token_contracts: Vec::new(),
    }
}

fn company(id: &str, owner: Principal) -> Company {
    Company {
        id: id.to_string(),
        basic_info: CompanyBasicInfo {
            name: "Org".to_string(),
            description: "desc".to_string(),
            website: "https://example.com".to_string(),
            founding_date: "2020".to_string(),
            team_size: 1,
            focus_areas: vec!["DeFi".to_string()],
        },
        web3_identity: Web3Identity {
            github_org: None,
            twitter_handle: None,
            discord_server: None,
            telegram_channel: None,
            linkedin_company: None,
            medium_publication: None,
            domain_verified: false,
            social_verification_status: VerificationStatus::Pending,
            verification_proofs: Vec::new(),
        },
        cross_chain_presence: presence(),
        team_members: Vec::new(),
        community_validation: CommunityValidation {
            peer_endorsements: Vec::new(),
            employee_testimonials: Vec::new(),
            community_vouches: Vec::new(),
            reputation_score: 0,
            reputation_staked: 0,
        },
        status: CompanyStatus::Pending,
        created_at: 1,
        updated_at: 1,
        created_by: owner,
        verification_score: 20,
    }
}

#[test]
fn ethereum_addresses() {
    assert!(VerificationManager::validate_ethereum_address(
        "0x742d35Cc6634C0532925a3b8D4d3c12de56d0d9E"
    ));
    assert!(!VerificationManager::validate_ethereum_address("0x742d35"));
    assert!(!VerificationManager::validate_ethereum_address(
        "742d35Cc6634C0532925a3b8D4d3c12de56d0d9Eab"
    ));
    assert!(!VerificationManager::validate_ethereum_address(
        "0x742d35Cc6634C0532925a3b8D4d3c12de56d0dZZ"
    ));
}

#[test]
fn bitcoin_addresses() {
    assert!(VerificationManager::validate_bitcoin_address(
        "1A1zP1eP5QGefi2DMPTfTL5SLmv7DivfNa"
    ));
    assert!(VerificationManager::validate_bitcoin_address(
        "bc1qar0srrr7xfkvy5l643lydnw9re59gtzzwf5mdq"
    ));
    assert!(!VerificationManager::validate_bitcoin_address("2A1zP1eP5QGefi2DMPTfTL5SLmv7DivfNa"));
    assert!(!VerificationManager::validate_bitcoin_address("1A1z"));
}

#[test]
fn solana_sui_ton_icp_addresses() {
    assert!(VerificationManager::validate_solana_address(
        "7dHbWXmci3dT8UFYWGGWnSZwJa8ACHWrAhwRgBAuR7a1"
    ));
    assert!(!VerificationManager::validate_solana_address("short"));
    assert!(!VerificationManager::validate_solana_address(
        "0dHbWXmci3dT8UFYWGGWnSZwJa8ACHWrAhwRgBAuR7a1"
    ));
    assert!(VerificationManager::validate_sui_address(
        "0x2d3d1d6e5f7c8a9b0c1d2e3f4a5b6c7d8e9f0a1b2c3d4e5f6a7b8c9d0e1f2a3b"
    ));
    assert!(!VerificationManager::validate_sui_address("0x2d3d"));
    assert!(VerificationManager::validate_ton_address(
        "0:aaaaaaaaaaaaaaaaaaaaaaaaaaaaaaaaaaaaaaaaaaaaaaaaaaaaaaaaaaaaaaaa"
    ));
    assert!(VerificationManager::validate_ton_address(
        "EQD2NmD_lH5f5u1Kj3KfGyTvhZSX0Eg6qp2a5IQUKXxOG21n"
    ));
    assert!(!VerificationManager::validate_ton_address("XQD2NmD"));
    assert!(VerificationManager::validate_icp_principal("rdmx6-jaaaa-aaaah-qcaiq-cai"));
    assert!(!VerificationManager::validate_icp_principal("rdmx6-jaaaa-aaaah-qcaiq"));
    assert!(VerificationManager::validate_cross_chain_address(
        "Ethereum",
        "0x742d35Cc6634C0532925a3b8D4d3c12de56d0d9E"
    ));
    assert!(!VerificationManager::validate_cross_chain_address("unknownchain", "whatever"));
}

#[test]
fn canister_id_shape() {
    assert!(CrossChainVerifier::is_valid_canister_id("rdmx6-jaaaa-aaaah-qcaiq-cai"));
    assert!(CrossChainVerifier::is_valid_canister_id("ab1-cd2-ef3-gh4-ij5"));
    assert!(!CrossChainVerifier::is_valid_canister_id("ab1-cd2-ef3-gh4"));
    assert!(!CrossChainVerifier::is_valid_canister_id("-ab-cd-ef-gh-ij"));
    assert!(!CrossChainVerifier::is_valid_canister_id("ab--cd-ef-gh-ij"));
}

#[test]
fn sanitizers() {
    assert_eq!(
        VerificationManager::sanitize_url("https://x.test/a?b=c<script>"),
        "https://x.test/a?b=cscript"
    );
    assert_eq!(VerificationManager::sanitize_social_handle("@@alice_dev!"), "alice_dev");
    assert_eq!(
        VerificationManager::sanitize_challenge_data("Company: one<two>"),
        "Company: onetwo"
    );
}

#[test]
fn secure_url_whitelist() {
    let allowed = vec!["twitter.com", "x.com", "mobile.twitter.com"];
    assert!(VerificationManager::validate_secure_url(
        "https://twitter.com/someone/status/1",
        &allowed
    )
    .is_ok());
    assert!(VerificationManager::validate_secure_url("https://X.com/someone", &allowed).is_ok());
    assert!(VerificationManager::validate_secure_url("http://twitter.com/a", &allowed).is_err());
    assert!(VerificationManager::validate_secure_url("https://evil.test/a", &allowed).is_err());
    assert!(VerificationManager::validate_secure_url(
        "https://twitter.com.evil.test/a",
        &allowed
    )
    .is_err());
}

#[test]
fn domain_and_username_extraction() {
    assert_eq!(
        VerificationManager::extract_domain_from_url("https://example.com/path").unwrap(),
        "example.com"
    );
    assert_eq!(
        VerificationManager::extract_domain_from_url("http://sub.example.com").unwrap(),
        "sub.example.com"
    );
    assert!(VerificationManager::extract_domain_from_url("ftp://example.com").is_err());
    assert_eq!(
        VerificationManager::extract_twitter_username("https://twitter.com/alice?x=1").unwrap(),
        "alice"
    );
    assert_eq!(
        VerificationManager::extract_twitter_username("https://x.com/bob/status/5").unwrap(),
        "bob"
    );
    assert!(VerificationManager::extract_twitter_username("https://example.com/alice").is_none());
}

#[test]
fn text_rendering() {
    assert_eq!(text::decimal_string(0), "0");
    assert_eq!(text::decimal_string(12_345), "12345");
    assert_eq!(text::hex_string(&vec![0xde, 0xad, 0x01]), "dead01");
    assert!(text::str_contains("haystack with needle", "needle"));
    assert!(!text::str_contains("haystack", "needle"));
    assert!(text::str_contains_ci("SCRIPT alert", "script"));
    assert!(text::str_eq_ci("TwItTeR", "twitter"));
    assert!(text::str_is_blank("   \t"));
    assert!(!text::str_is_blank(" a "));
}

#[test]
fn crosschain_challenge_lifecycle() {
    let mut s = StorageManager::new();
    let owner = Principal(7);
    s.insert_company("corp9".to_string(), company("corp9", owner));
    let request = CrossChainVerificationRequest {
        company_id: "corp9".to_string(),
        chain_type: ChainType::Ethereum,
        address_or_contract: "0x742d35Cc6634C0532925a3b8D4d3c12de56d0d9E".to_string(),
        verification_method: CrossChainVerificationMethod::SignMessage {
            message: "prove it".to_string(),
        },
    };
    let challenge = CrossChainVerifier::create_crosschain_challenge(&mut s, request, owner, 5_000)
        .expect("challenge issued");
    assert_eq!(challenge.challenge_message, "prove it");
    assert_eq!(challenge.expires_at, 5_000 + 172_800_000_000_000);

    // Completing with a transaction that carries the message succeeds and
    // records the contract.
    let data = EtherscanContractResponse {
        status: "1".to_string(),
        message: "OK".to_string(),
        result: vec![EtherscanTransaction {
            hash: "0x1".to_string(),
            from: "0xabc".to_string(),
            to: "0xdef".to_string(),
            value: "0".to_string(),
            input: "deadbeef prove it deadbeef".to_string(),
            timestamp: "100".to_string(),
        }],
    };
    let done = CrossChainVerifier::complete_ethereum_verification(
        &mut s,
        "corp9",
        "0x742d35Cc6634C0532925a3b8D4d3c12de56d0d9E",
        6_000,
        EtherscanOutcome::Response(data),
    )
    .expect("verification completes");
    assert!(done.success);
    let c = s.get_company("corp9").unwrap();
    assert!(c
        .cross_chain_presence
        .ethereum_contracts
        .iter()
        .any(|a| a == "0x742d35Cc6634C0532925a3b8D4d3c12de56d0d9E"));
    assert_eq!(c.web3_identity.verification_proofs.len(), 1);

    // The challenge was consumed: a second completion finds none.
    let again = CrossChainVerifier::complete_ethereum_verification(
        &mut s,
        "corp9",
        "0x742d35Cc6634C0532925a3b8D4d3c12de56d0d9E",
        7_000,
        EtherscanOutcome::Transport,
    );
    assert_eq!(again.unwrap_err(), RegistryError::ChallengeNotFound);
}

// An expired cross-chain challenge always yields the expiry error and is
// deleted, regardless of the evidence; with it gone, a retry finds none.
#[test]
fn expired_crosschain_challenge_is_rejected_and_deleted() {
    let mut s = StorageManager::new();
    let owner = Principal(7);
    s.insert_company("corp8".to_string(), company("corp8", owner));
    let request = CrossChainVerificationRequest {
        company_id: "corp8".to_string(),
        chain_type: ChainType::Ethereum,
        address_or_contract: "0x742d35Cc6634C0532925a3b8D4d3c12de56d0d9E".to_string(),
        verification_method: CrossChainVerificationMethod::SignMessage {
            message: "prove it".to_string(),
        },
    };
    let challenge = CrossChainVerifier::create_crosschain_challenge(&mut s, request, owner, 5_000)
        .expect("challenge issued");
    let matching = EtherscanContractResponse {
        status: "1".to_string(),
        message: "OK".to_string(),
        result: vec![EtherscanTransaction {
            hash: "0x1".to_string(),
            from: "0xabc".to_string(),
            to: "0xdef".to_string(),
            value: "0".to_string(),
            input: "prove it".to_string(),
            timestamp: "100".to_string(),
        }],
    };
    let late = challenge.expires_at + 1;
    let expired = CrossChainVerifier::complete_ethereum_verification(
        &mut s,
        "corp8",
        "0x742d35Cc6634C0532925a3b8D4d3c12de56d0d9E",
        late,
        EtherscanOutcome::Response(matching),
    );
    assert_eq!(expired.unwrap_err(), RegistryError::ChallengeExpired);
    assert!(s.crosschain_challenges.items.is_empty());
    let retry = CrossChainVerifier::complete_ethereum_verification(
        &mut s,
        "corp8",
        "0x742d35Cc6634C0532925a3b8D4d3c12de56d0d9E",
        6_000,
        EtherscanOutcome::Transport,
    );
    assert_eq!(retry.unwrap_err(), RegistryError::ChallengeNotFound);
}

#[test]
fn bad_address_is_refused_before_any_challenge() {
    let mut s = StorageManager::new();
    let owner = Principal(7);
    s.insert_company("corp9".to_string(), company("corp9", owner));
    let request = CrossChainVerificationRequest {
        company_id: "corp9".to_string(),
        chain_type: ChainType::Ethereum,
        address_or_contract: "0xshort".to_string(),
        verification_method: CrossChainVerificationMethod::SignMessage {
            message: "m".to_string(),
        },
    };
    let refused = CrossChainVerifier::create_crosschain_challenge(&mut s, request, owner, 5_000);
    assert_eq!(refused.unwrap_err(), RegistryError::InvalidInput);
    assert!(s.crosschain_challenges.items.is_empty());
}

#[test]
fn risk_assessment_scores() {
    let mut s = StorageManager::new();
    let owner = Principal(7);
    // A single-chain company with two unverified addresses: 20 + 30.
    let mut risky = company("risky", owner);
    risky.cross_chain_presence.ethereum_contracts.push("0xabc".to_string());
    risky.cross_chain_presence.ethereum_contracts.push("0xdef".to_string());
    s.insert_company("risky".to_string(), risky);
    let msg = CrossChainVerifier::assess_cross_chain_risk(&mut s, "risky".to_string(), 1_000)
        .expect("company exists");
    assert_eq!(msg, "Risk Level: Medium (Score: 50)");

    // Diversified and fully verified: no risk factors at all.
    let mut calm = company("calm", owner);
    calm.cross_chain_presence.ethereum_contracts.push("0xabc".to_string());
    calm.cross_chain_presence.bitcoin_addresses.push("1abc".to_string());
    calm.cross_chain_presence.treasury_wallets.push(WalletInfo {
        chain: "ethereum".to_string(),
        address: "0xabc".to_string(),
        wallet_type: "treasury".to_string(),
        verified: true,
    });
    s.insert_company("calm".to_string(), calm);
    let msg2 = CrossChainVerifier::assess_cross_chain_risk(&mut s, "calm".to_string(), 1_000)
        .expect("company exists");
    assert_eq!(msg2, "Risk Level: Low (Score: 0)");
}

#[test]
fn security_checked_address_validation() {
    let mut s = StorageManager::new();
    let ok = CrossChainVerifier::validate_address_with_security_check(
        &mut s,
        &ChainType::Ethereum,
        "0x742d35Cc6634C0532925a3b8D4d3c12de56d0d9E",
        Principal(1),
        1_000,
    );
    assert_eq!(ok.unwrap(), true);
    let burn = CrossChainVerifier::validate_address_with_security_check(
        &mut s,
        &ChainType::Ethereum,
        "0x0000000000000000000000000000000000000000",
        Principal(1),
        1_000,
    );
    assert_eq!(burn.unwrap_err(), RegistryError::InvalidInput);
}

#[test]
fn supported_chains_and_rules() {
    let chains = RegistryAPI::get_supported_chains().unwrap();
    assert_eq!(chains.len(), 7);
    assert!(chains.iter().any(|c| c == "ethereum"));
    let rules = RegistryAPI::get_address_validation_rules("ETH".to_string()).unwrap();
    assert!(rules.contains("0x"));
}

#[test]
fn monitoring_stats_count_by_status() {
    let mut s = StorageManager::new();
    let owner = Principal(7);
    let mut c = company("corp", owner);
    let mk = |status| crosschain_registry::types::VerificationProof {
        verification_type: crosschain_registry::types::VerificationType::Twitter,
        proof_url: "https://social.test/x".to_string(),
        verified_at: 1,
        verification_method: crosschain_registry::types::VerificationMethod::ProofVisible,
        challenge_data: None,
        status,
    };
    c.web3_identity.verification_proofs.push(mk(crosschain_registry::types::ProofStatus::Active));
    c.web3_identity.verification_proofs.push(mk(crosschain_registry::types::ProofStatus::Removed));
    c.web3_identity.verification_proofs.push(mk(crosschain_registry::types::ProofStatus::Disputed));
    s.insert_company("corp".to_string(), c);
    let stats = MonitoringSystem::get_monitoring_stats(&s, 1_000);
    assert_eq!(stats.total_proofs_monitored, 3);
    assert_eq!(stats.active_proofs, 1);
    assert_eq!(stats.removed_proofs, 1);
    assert_eq!(stats.disputed_proofs, 1);
}
