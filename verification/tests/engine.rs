//! End-to-end behaviour of the verification and trust-scoring engine:
//! challenge lifecycle, rate limiting, the monitoring loop, scoring rules,
//! and community reporting.

use crosschain_registry::api::RegistryAPI;
use crosschain_registry::community::CommunityValidationManager;
use crosschain_registry::monitoring::MonitoringSystem;
use crosschain_registry::storage::StorageManager;
use crosschain_registry::types::{
    Company, CommunityValidation, CompanyBasicInfo, CompanyStatus, CreateCompanyRequest,
    CrossChainPresence, DnsTxtOutcome, Endorsement, Principal, ProofStatus, RegistryError,
    ReportType, TaskPriority, TaskType, Testimonial, VerificationMethod, VerificationProof,
    VerificationStatus, VerificationType, Vouch, Web3Identity,
};
use crosschain_registry::verification::VerificationManager;

const HOUR_NS: u64 = 3_600_000_000_000;
const MINUTE_NS: u64 = 60_000_000_000;

fn basic_info(name: &str, website: &str) -> CompanyBasicInfo {
    CompanyBasicInfo {
        name: name.to_string(),
        description: "a registry test organization".to_string(),
        website: website.to_string(),
        founding_date: "2020-01-01".to_string(),
        team_size: 5,
        focus_areas: vec!["DeFi".to_string()],
    }
}

fn empty_identity() -> Web3Identity {
    Web3Identity {
        github_org: None,
        twitter_handle: None,
        discord_server: None,
        telegram_channel: None,
        linkedin_company: None,
        medium_publication: None,
        domain_verified: false,
        social_verification_status: VerificationStatus::Pending,
        verification_proofs: Vec::new(),
    }
}

fn empty_presence() -> CrossChainPresence {
    CrossChainPresence {
        ethereum_contracts: Vec::new(),
        bitcoin_addresses: Vec::new(),
        icp_canisters: Vec::new(),
        polygon_contracts: Vec::new(),
        solana_addresses: Vec::new(),
        sui_addresses: Vec::new(),
        ton_addresses: Vec::new(),
        treasury_wallets: Vec::new(),
        token_contracts: Vec::new(),
    }
}

fn empty_community() -> CommunityValidation {
    CommunityValidation {
        peer_endorsements: Vec::new(),
        employee_testimonials: Vec::new(),
        community_vouches: Vec::new(),
        reputation_score: 0,
        reputation_staked: 0,
    }
}

fn bare_company(id: &str, owner: Principal, score: u32) -> Company {
    Company {
        id: id.to_string(),
        basic_info: basic_info("Test Org", "https://example.com"),
        web3_identity: empty_identity(),
        cross_chain_presence: empty_presence(),
        team_members: Vec::new(),
        community_validation: empty_community(),
        status: CompanyStatus::Pending,
        created_at: 1,
        updated_at: 1,
        created_by: owner,
        verification_score: score,
    }
}

fn register(s: &mut StorageManager, owner: Principal, now: u64) -> String {
    let request = CreateCompanyRequest {
        basic_info: basic_info("Test Org", "https://example.com"),
        web3_identity: empty_identity(),
        cross_chain_presence: empty_presence(),
        team_members: Vec::new(),
    };
    RegistryAPI::create_company(s, request, owner, now).expect("registration accepted")
}

fn sample_proof(url: &str, at: u64) -> VerificationProof {
    VerificationProof {
        verification_type: VerificationType::Twitter,
        proof_url: url.to_string(),
        verified_at: at,
        verification_method: VerificationMethod::ProofVisible,
        challenge_data: None,
        status: ProofStatus::Active,
    }
}

// Scores stay inside the 0 to 100 band on every path.
#[test]
fn verification_score_is_banded() {
    let mut c = bare_company("c1", Principal(9), 0);
    assert_eq!(VerificationManager::calculate_verification_score(&c), 20);

    c.web3_identity.github_org = Some("org".to_string());
    c.web3_identity.domain_verified = true;
    c.web3_identity.social_verification_status = VerificationStatus::Verified;
    c.cross_chain_presence.ethereum_contracts.push("0xabc".to_string());
    c.community_validation.reputation_score = 35;
    // 20 profile + 30 identity + 5 chains + 0 team + 3 community
    assert_eq!(VerificationManager::calculate_verification_score(&c), 58);

    // Saturate every signal: the result is clamped at 100.
    c.cross_chain_presence.bitcoin_addresses.push("x".to_string());
    c.cross_chain_presence.icp_canisters.push("x".to_string());
    c.cross_chain_presence.solana_addresses.push("x".to_string());
    c.cross_chain_presence.sui_addresses.push("x".to_string());
    c.cross_chain_presence.ton_addresses.push("x".to_string());
    c.cross_chain_presence.treasury_wallets.push(crosschain_registry::types::WalletInfo {
        chain: "ethereum".to_string(),
        address: "0xabc".to_string(),
        wallet_type: "treasury".to_string(),
        verified: true,
    });
    c.cross_chain_presence.token_contracts.push(crosschain_registry::types::TokenInfo {
        chain: "ethereum".to_string(),
        contract_address: "0xabc".to_string(),
        symbol: "T".to_string(),
        name: "T".to_string(),
        verified: true,
    });
    for _ in 0..10 {
        c.team_members.push(crosschain_registry::types::TeamMember {
            name: "member".to_string(),
            role: "engineer".to_string(),
            github_profile: None,
            linkedin_profile: None,
            verified: true,
        });
    }
    c.community_validation.reputation_score = 4_000;
    let score = VerificationManager::calculate_verification_score(&c);
    assert_eq!(score, 100);
    assert!(score <= 100);
}

// A consumed challenge is not acceptable again without re-issuance.
#[test]
fn challenge_is_single_use() {
    let mut s = StorageManager::new();
    let owner = Principal(7);
    let id = register(&mut s, owner, 1_000);
    let entropy = vec![1u8, 2, 3, 4];
    let challenge = VerificationManager::create_domain_verification_challenge(
        &mut s,
        id.clone(),
        owner,
        2_000,
        &entropy,
    )
    .expect("challenge issued");
    let evidence = format!("v=spf1 {} rest", challenge.challenge_token);

    let first = VerificationManager::complete_domain_verification(
        &mut s,
        &id,
        3_000,
        DnsTxtOutcome::Response(evidence.clone()),
    )
    .expect("first verification completes");
    assert!(first.success);
    assert_eq!(first.verified_at, Some(3_000));

    let second = VerificationManager::complete_domain_verification(
        &mut s,
        &id,
        4_000,
        DnsTxtOutcome::Response(evidence),
    );
    assert_eq!(second.unwrap_err(), RegistryError::ChallengeNotFound);
}

// An expired challenge always yields an expiry error and is deleted, even
// when the evidence would have matched.
#[test]
fn expired_challenge_is_rejected_and_deleted() {
    let mut s = StorageManager::new();
    let owner = Principal(7);
    let id = register(&mut s, owner, 1_000);
    let entropy = vec![9u8; 8];
    let challenge = VerificationManager::create_domain_verification_challenge(
        &mut s,
        id.clone(),
        owner,
        2_000,
        &entropy,
    )
    .expect("challenge issued");
    let evidence = format!("{}", challenge.challenge_token);
    let too_late = challenge.expires_at + 1;

    let outcome = VerificationManager::complete_domain_verification(
        &mut s,
        &id,
        too_late,
        DnsTxtOutcome::Response(evidence.clone()),
    );
    assert_eq!(outcome.unwrap_err(), RegistryError::ChallengeExpired);
    assert!(s.get_domain_challenge(&id).is_none());

    // And with the challenge gone, even timely evidence is refused.
    let retry = VerificationManager::complete_domain_verification(
        &mut s,
        &id,
        2_500,
        DnsTxtOutcome::Response(evidence),
    );
    assert_eq!(retry.unwrap_err(), RegistryError::ChallengeNotFound);
}

// Evidence without the token is a non-error refusal and keeps the
// challenge for a retry before expiry.
#[test]
fn missing_token_keeps_challenge() {
    let mut s = StorageManager::new();
    let owner = Principal(7);
    let id = register(&mut s, owner, 1_000);
    let entropy = vec![5u8; 4];
    VerificationManager::create_domain_verification_challenge(
        &mut s,
        id.clone(),
        owner,
        2_000,
        &entropy,
    )
    .expect("challenge issued");

    let refused = VerificationManager::complete_domain_verification(
        &mut s,
        &id,
        3_000,
        DnsTxtOutcome::Response("no token here".to_string()),
    )
    .expect("completes without error");
    assert!(!refused.success);
    assert!(s.get_domain_challenge(&id).is_some());
}

// Exactly the class limit of calls is admitted per window, and the window
// resets after it elapses.
#[test]
fn rate_limiter_admits_exactly_the_limit() {
    let mut s = StorageManager::new();
    let caller = Principal(42);
    let start: u64 = 1_000_000;
    // Verification attempts: 5 per 5 minutes.
    for k in 0..5 {
        assert!(
            s.check_verification_rate_limit(caller, start + k),
            "admission {} within the window",
            k
        );
    }
    assert!(!s.check_verification_rate_limit(caller, start + 10));
    // Another identity is unaffected.
    assert!(s.check_verification_rate_limit(Principal(43), start + 10));
    // After the window has elapsed past every admission, the count resets.
    let later = start + 10 + 5 * MINUTE_NS;
    assert!(s.check_verification_rate_limit(caller, later));
}

// Draining an already-drained queue returns nothing and changes nothing.
#[test]
fn drained_queue_is_idempotent() {
    let mut s = StorageManager::new();
    let owner = Principal(7);
    let id = register(&mut s, owner, 1_000);
    let score_before = s.get_company(&id).unwrap().verification_score;
    let updated_before = s.get_company(&id).unwrap().updated_at;

    let processed = MonitoringSystem::process_monitoring_tasks(&mut s, 50_000);
    assert!(processed.is_empty());
    let after = s.get_company(&id).unwrap();
    assert_eq!(after.verification_score, score_before);
    assert_eq!(after.updated_at, updated_before);
    assert_eq!(s.monitoring_tasks.items.len(), 0);
}

fn find_task<'a>(s: &'a StorageManager, task_id: &str) -> Option<&'a crosschain_registry::types::MonitoringTask> {
    s.monitoring_tasks.items.iter().find(|t| t.task_id == task_id)
}

// A task that always fails gains exactly one retry per due execution and
// is removed exactly when the count reaches the limit.
#[test]
fn failing_task_retries_then_dies() {
    let mut s = StorageManager::new();
    let owner = Principal(7);
    let mut company = bare_company("corp1", owner, 50);
    let gone = sample_proof("https://social.test/deleted/1", 777);
    let pid = MonitoringSystem::generate_proof_id(&gone);
    company.web3_identity.verification_proofs.push(gone);
    s.insert_company("corp1".to_string(), company);

    let t0: u64 = 10_000;
    MonitoringSystem::schedule_proof_monitoring(
        &mut s,
        "corp1".to_string(),
        pid,
        TaskPriority::Medium,
        t0,
    );
    let task_id = format!("task_{}", t0);
    assert_eq!(find_task(&s, &task_id).unwrap().retry_count, 0);
    assert_eq!(find_task(&s, &task_id).unwrap().max_retries, 3);

    let t1 = t0 + HOUR_NS;
    MonitoringSystem::process_monitoring_tasks(&mut s, t1);
    assert_eq!(find_task(&s, &task_id).unwrap().retry_count, 1);

    let t2 = find_task(&s, &task_id).unwrap().scheduled_at;
    MonitoringSystem::process_monitoring_tasks(&mut s, t2);
    assert_eq!(find_task(&s, &task_id).unwrap().retry_count, 2);

    let t3 = find_task(&s, &task_id).unwrap().scheduled_at;
    MonitoringSystem::process_monitoring_tasks(&mut s, t3);
    assert!(find_task(&s, &task_id).is_none(), "removed at the retry limit");
}

// A demoted proof feeds the reputation update: 20 points per removed proof
// come off the verification score, and a low result flags the company.
#[test]
fn removed_proof_costs_twenty_and_flags() {
    let mut s = StorageManager::new();
    let owner = Principal(7);
    let mut company = bare_company("corp2", owner, 45);
    let mut dead = sample_proof("https://social.test/a", 5);
    dead.status = ProofStatus::Removed;
    company.web3_identity.verification_proofs.push(dead);
    s.insert_company("corp2".to_string(), company);

    MonitoringSystem::update_reputation_scores(&mut s, "corp2", 99_000).expect("update runs");
    let c = s.get_company("corp2").unwrap();
    assert_eq!(c.verification_score, 25);
    assert_eq!(c.status, CompanyStatus::Flagged);
}

// Disputed proofs cost ten and a still-healthy score keeps the status.
#[test]
fn disputed_proof_costs_ten() {
    let mut s = StorageManager::new();
    let owner = Principal(7);
    let mut company = bare_company("corp3", owner, 80);
    let mut disputed = sample_proof("https://social.test/b", 6);
    disputed.status = ProofStatus::Disputed;
    company.web3_identity.verification_proofs.push(disputed);
    s.insert_company("corp3".to_string(), company);

    MonitoringSystem::update_reputation_scores(&mut s, "corp3", 99_000).expect("update runs");
    let c = s.get_company("corp3").unwrap();
    assert_eq!(c.verification_score, 70);
    assert_eq!(c.status, CompanyStatus::Pending);
}

// Score 40 and no community signals put the reputation at exactly 10 and
// the status at pending.
#[test]
fn reputation_base_is_quarter_of_verification() {
    let mut c = bare_company("c", Principal(1), 40);
    CommunityValidationManager::update_reputation_score(&mut c);
    assert_eq!(c.community_validation.reputation_score, 10);
    assert_eq!(c.status, CompanyStatus::Pending);
}

// Three endorsements add 30 points and push the status over the pending
// band into verified.
#[test]
fn three_endorsements_reach_verified() {
    let mut c = bare_company("c", Principal(1), 40);
    for k in 0..3 {
        c.community_validation.peer_endorsements.push(Endorsement {
            endorser_company_id: format!("peer{}", k),
            message: "solid work".to_string(),
            timestamp: 10,
            endorser_principal: Principal(100 + k),
        });
    }
    CommunityValidationManager::update_reputation_score(&mut c);
    assert_eq!(c.community_validation.reputation_score, 40);
    assert_eq!(c.status, CompanyStatus::Verified);
}

// Testimonials score five when verified and two otherwise; vouches score
// three per weight point; staking adds twice the ceiling log.
#[test]
fn reputation_formula_components() {
    let mut c = bare_company("c", Principal(1), 0);
    c.community_validation.employee_testimonials.push(Testimonial {
        author_name: "ada".to_string(),
        role: "engineer".to_string(),
        message: "great team".to_string(),
        timestamp: 3,
        verified: true,
    });
    c.community_validation.employee_testimonials.push(Testimonial {
        author_name: "grace".to_string(),
        role: "engineer".to_string(),
        message: "great team".to_string(),
        timestamp: 4,
        verified: false,
    });
    c.community_validation.community_vouches.push(Vouch {
        voucher_principal: Principal(50),
        message: "vouched".to_string(),
        timestamp: 5,
        weight: 2,
    });
    c.community_validation.reputation_staked = 1_000;
    CommunityValidationManager::update_reputation_score(&mut c);
    // 5 + 2 + 6 + ceil(log10(1000)) * 2 = 13 + 6
    assert_eq!(c.community_validation.reputation_score, 19);
    assert_eq!(c.status, CompanyStatus::Pending);

    c.community_validation.reputation_staked = 1_001;
    CommunityValidationManager::update_reputation_score(&mut c);
    assert_eq!(c.community_validation.reputation_score, 21);
    assert_eq!(c.status, CompanyStatus::Verified);
}

// Three independent reports force the proof into dispute and enqueue a
// critical-priority re-check.
#[test]
fn three_reports_force_dispute() {
    let mut s = StorageManager::new();
    let owner = Principal(7);
    let mut company = bare_company("corp4", owner, 60);
    let watched = sample_proof("https://social.test/post/9", 123);
    let pid = MonitoringSystem::generate_proof_id(&watched);
    company.web3_identity.verification_proofs.push(watched);
    s.insert_company("corp4".to_string(), company);

    for k in 0..3u64 {
        let r = MonitoringSystem::submit_community_report(
            &mut s,
            "corp4".to_string(),
            Some(pid.clone()),
            ReportType::SuspiciousProof,
            "the post is gone".to_string(),
            Principal(200 + k),
            50_000 + k,
        );
        assert!(r.is_ok(), "report {} accepted", k);
    }
    let c = s.get_company("corp4").unwrap();
    assert_eq!(c.web3_identity.verification_proofs[0].status, ProofStatus::Disputed);
    let critical = s
        .monitoring_tasks
        .items
        .iter()
        .find(|t| t.task_type == TaskType::ProofCheck && t.priority == TaskPriority::Critical)
        .expect("critical re-check scheduled");
    assert_eq!(critical.target_company_id, "corp4");
    assert_eq!(critical.target_proof_id.as_deref(), Some(pid.as_str()));
}

// Report submissions are rate limited per reporter: three per window, the
// fourth is refused.
#[test]
fn report_rate_limit_is_three() {
    let mut s = StorageManager::new();
    let reporter = Principal(77);
    for k in 0..3u64 {
        assert!(s.check_report_rate_limit(reporter, 1_000 + k));
    }
    assert!(!s.check_report_rate_limit(reporter, 1_010));
}

// The registry surface: registration computes the initial score and the
// statistics count by status.
#[test]
fn registration_and_statistics() {
    let mut s = StorageManager::new();
    let owner = Principal(7);
    let id = register(&mut s, owner, 44_000);
    assert_eq!(id, "company_44000");
    let c = s.get_company(&id).unwrap();
    // Profile completeness only: name, description, website, focus areas.
    assert_eq!(c.verification_score, 20);
    assert_eq!(c.status, CompanyStatus::Pending);

    let stats = RegistryAPI::get_statistics(&s);
    assert_eq!(stats.total_companies, 1);
    assert_eq!(stats.pending_companies, 1);
    assert_eq!(stats.verified_companies, 0);

    assert_eq!(RegistryAPI::get_company_count(&s), 1);
}

// Only the owner may issue challenges; strangers get an authorization
// error, unknown companies a not-found error.
#[test]
fn challenge_authorization() {
    let mut s = StorageManager::new();
    let owner = Principal(7);
    let id = register(&mut s, owner, 1_000);
    let entropy = vec![1u8];
    let stranger = VerificationManager::create_domain_verification_challenge(
        &mut s,
        id.clone(),
        Principal(8),
        2_000,
        &entropy,
    );
    assert_eq!(stranger.unwrap_err(), RegistryError::Unauthorized);
    let missing = VerificationManager::create_domain_verification_challenge(
        &mut s,
        "nobody".to_string(),
        owner,
        2_000,
        &entropy,
    );
    assert_eq!(missing.unwrap_err(), RegistryError::CompanyNotFound);
}

// The challenge token carries the issue time and the hex-rendered entropy.
#[test]
fn challenge_token_format() {
    let token = VerificationManager::generate_challenge_token(12_345, &vec![0xde, 0xad, 0xbe]);
    assert_eq!(token, "icp-registry-12345-deadbe");
}

// Fraud heuristics: a burst of endorsements inside an hour, a reused
// author, and a mutual endorsement each count as one pattern.
#[test]
fn fraud_patterns_are_counted() {
    let mut s = StorageManager::new();
    let owner = Principal(7);
    let now: u64 = 10 * HOUR_NS;

    let mut a = bare_company("corp_a", owner, 50);
    for k in 0..6u64 {
        a.community_validation.peer_endorsements.push(Endorsement {
            endorser_company_id: "corp_b".to_string(),
            message: format!("m{}", k),
            timestamp: now - 1_000 - k,
            endorser_principal: Principal(300 + k),
        });
    }
    s.insert_company("corp_a".to_string(), a);

    let mut b = bare_company("corp_b", Principal(8), 50);
    b.community_validation.peer_endorsements.push(Endorsement {
        endorser_company_id: "corp_a".to_string(),
        message: "back at you".to_string(),
        timestamp: now - 500,
        endorser_principal: owner,
    });
    s.insert_company("corp_b".to_string(), b);

    let patterns = CommunityValidationManager::detect_validation_fraud(
        &mut s,
        "corp_a".to_string(),
        now,
    )
    .expect("company exists");
    // One burst pattern plus six mutual-endorsement findings (each of the
    // six endorsements names corp_b, which endorses corp_a back).
    assert_eq!(patterns.len(), 7);
}

// An integrity score pushed under 50 blocks staking with a descriptive
// error; a clean company may stake.
#[test]
fn integrity_gate_blocks_staking() {
    let mut s = StorageManager::new();
    let owner = Principal(7);
    let now: u64 = 10 * HOUR_NS;

    let mut shady = bare_company("shady", owner, 50);
    for k in 0..11u64 {
        shady.community_validation.employee_testimonials.push(Testimonial {
            author_name: format!("ghost{}", k),
            role: "fan".to_string(),
            message: "wonderful".to_string(),
            timestamp: 1,
            verified: false,
        });
    }
    s.insert_company("shady".to_string(), shady);
    let blocked = CommunityValidationManager::stake_reputation_with_validation(
        &mut s,
        "shady".to_string(),
        5_000,
        owner,
        now,
    );
    assert_eq!(blocked.unwrap_err(), RegistryError::IntegrityCheckFailed);

    let clean = bare_company("clean", owner, 50);
    s.insert_company("clean".to_string(), clean);
    CommunityValidationManager::stake_reputation_with_validation(
        &mut s,
        "clean".to_string(),
        5_000,
        owner,
        now,
    )
    .expect("clean company stakes");
    let c = s.get_company("clean").unwrap();
    assert_eq!(c.community_validation.reputation_staked, 5_000);
    // The full formula is recomputed: 50 / 4 + ceil(log10(5000)) * 2.
    assert_eq!(c.community_validation.reputation_score, 20);
    assert_eq!(c.status, CompanyStatus::Pending);
}

// Voucher weight bands follow total vouch activity across the registry.
#[test]
fn voucher_weight_bands() {
    let mut s = StorageManager::new();
    let voucher = Principal(55);
    assert_eq!(CommunityValidationManager::calculate_voucher_weight(&s, voucher), 1);

    let mut c = bare_company("host", Principal(7), 10);
    for k in 0..3u64 {
        c.community_validation.community_vouches.push(Vouch {
            voucher_principal: voucher,
            message: format!("v{}", k),
            timestamp: k,
            weight: 1,
        });
    }
    s.insert_company("host".to_string(), c);
    assert_eq!(CommunityValidationManager::calculate_voucher_weight(&s, voucher), 2);
}
