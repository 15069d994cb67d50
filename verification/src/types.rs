//! Data model of the registry: organizations, community signals, challenges,
//! proofs, monitoring records, and the error taxonomy.

use vstd::prelude::*;

verus! {

/// Caller identity, modelled as an opaque numeric identifier.  The runtime
/// maps whatever identity scheme it uses onto these values; the engine only
/// ever compares them for equality.
#[derive(Clone, Copy, PartialEq, Eq, Structural, Debug)]
pub struct Principal(pub u64);

/// Why an operation was refused.  Every fallible operation of the engine
/// states in its contract exactly which variant comes back on which inputs.
#[derive(Clone, Copy, PartialEq, Eq, Structural, Debug)]
pub enum RegistryError {
    /// The named company does not exist.
    CompanyNotFound,
    /// No outstanding challenge for the given target.
    ChallengeNotFound,
    /// The challenge exists but its expiry time has passed; it is deleted.
    ChallengeExpired,
    /// The named verification proof does not exist.
    ProofNotFound,
    /// The named testimonial does not exist.
    TestimonialNotFound,
    /// The named alert does not exist.
    AlertNotFound,
    /// The caller is not the registered owner of the company.
    Unauthorized,
    /// The caller exceeded the rate limit for this action class.
    RateLimited,
    /// A malformed or out-of-bounds input was rejected before any work.
    InvalidInput,
    /// The record to create already exists (duplicate endorsement, vouch, or
    /// testimonial author).
    AlreadyExists,
    /// The community-validation integrity check blocked the operation.
    IntegrityCheckFailed,
    /// The external evidence check did not complete (transport failure).
    TransportFailed,
    /// The external check completed but the expected evidence is gone.
    EvidenceMissing,
    /// The external service answered with an unexpected status.
    ExternalServiceError,
}

/// Result of a registry operation.
pub type RegistryResult<T> = Result<T, RegistryError>;

// ---------------------------------------------------------------------------
// Organization profile
// ---------------------------------------------------------------------------

#[derive(Debug)]
pub struct CompanyBasicInfo {
    pub name: String,
    pub description: String,
    pub website: String,
    pub founding_date: String,
    pub team_size: u32,
    pub focus_areas: Vec<String>,
}

#[derive(Clone, Copy, PartialEq, Eq, Structural, Debug)]
pub enum VerificationStatus {
    Pending,
    Verified,
    Failed,
    Expired,
}

#[derive(Clone, Copy, PartialEq, Eq, Structural, Debug)]
pub enum CompanyStatus {
    Pending,
    Verified,
    Trusted,
    Flagged,
    Suspended,
}

#[derive(Clone, Copy, PartialEq, Eq, Structural, Debug)]
pub enum VerificationType {
    GitHub,
    Domain,
    Twitter,
    Discord,
    Telegram,
}

#[derive(Clone, Copy, PartialEq, Eq, Structural, Debug)]
pub enum VerificationMethod {
    Automated,
    ProofVisible,
}

#[derive(Clone, Copy, PartialEq, Eq, Structural, Debug)]
pub enum ProofStatus {
    Active,
    Removed,
    Disputed,
}

/// Durable record that a company completed a challenge for some claim.
/// Never deleted; only its status moves.
#[derive(Debug)]
pub struct VerificationProof {
    pub verification_type: VerificationType,
    pub proof_url: String,
    pub verified_at: u64,
    pub verification_method: VerificationMethod,
    pub challenge_data: Option<String>,
    pub status: ProofStatus,
}

#[derive(Debug)]
pub struct Web3Identity {
    pub github_org: Option<String>,
    pub twitter_handle: Option<String>,
    pub discord_server: Option<String>,
    pub telegram_channel: Option<String>,
    pub linkedin_company: Option<String>,
    pub medium_publication: Option<String>,
    pub domain_verified: bool,
    pub social_verification_status: VerificationStatus,
    pub verification_proofs: Vec<VerificationProof>,
}

#[derive(Debug)]
pub struct WalletInfo {
    pub chain: String,
    pub address: String,
    pub wallet_type: String,
    pub verified: bool,
}

#[derive(Debug)]
pub struct TokenInfo {
    pub chain: String,
    pub contract_address: String,
    pub symbol: String,
    pub name: String,
    pub verified: bool,
}

#[derive(Debug)]
pub struct CrossChainPresence {
    pub ethereum_contracts: Vec<String>,
    pub bitcoin_addresses: Vec<String>,
    pub icp_canisters: Vec<String>,
    pub polygon_contracts: Vec<String>,
    pub solana_addresses: Vec<String>,
    pub sui_addresses: Vec<String>,
    pub ton_addresses: Vec<String>,
    pub treasury_wallets: Vec<WalletInfo>,
    pub token_contracts: Vec<TokenInfo>,
}

#[derive(Debug)]
pub struct TeamMember {
    pub name: String,
    pub role: String,
    pub github_profile: Option<String>,
    pub linkedin_profile: Option<String>,
    pub verified: bool,
}

#[derive(Debug)]
pub struct Endorsement {
    pub endorser_company_id: String,
    pub message: String,
    pub timestamp: u64,
    pub endorser_principal: Principal,
}

#[derive(Debug)]
pub struct Testimonial {
    pub author_name: String,
    pub role: String,
    pub message: String,
    pub timestamp: u64,
    pub verified: bool,
}

#[derive(Debug)]
pub struct Vouch {
    pub voucher_principal: Principal,
    pub message: String,
    pub timestamp: u64,
    pub weight: u32,
}

#[derive(Debug)]
pub struct CommunityValidation {
    pub peer_endorsements: Vec<Endorsement>,
    pub employee_testimonials: Vec<Testimonial>,
    pub community_vouches: Vec<Vouch>,
    pub reputation_score: u32,
    pub reputation_staked: u64,
}

#[derive(Debug)]
pub struct Company {
    pub id: String,
    pub basic_info: CompanyBasicInfo,
    pub web3_identity: Web3Identity,
    pub cross_chain_presence: CrossChainPresence,
    pub team_members: Vec<TeamMember>,
    pub community_validation: CommunityValidation,
    pub status: CompanyStatus,
    pub created_at: u64,
    pub updated_at: u64,
    pub created_by: Principal,
    pub verification_score: u32,
}

// ---------------------------------------------------------------------------
// Requests and summaries
// ---------------------------------------------------------------------------

#[derive(Debug)]
pub struct CreateCompanyRequest {
    pub basic_info: CompanyBasicInfo,
    pub web3_identity: Web3Identity,
    pub cross_chain_presence: CrossChainPresence,
    pub team_members: Vec<TeamMember>,
}

#[derive(Debug)]
pub struct UpdateCompanyRequest {
    pub company_id: String,
    pub basic_info: Option<CompanyBasicInfo>,
    pub web3_identity: Option<Web3Identity>,
    pub cross_chain_presence: Option<CrossChainPresence>,
    pub team_members: Option<Vec<TeamMember>>,
}

#[derive(Debug)]
pub struct SearchFilters {
    pub status: Option<CompanyStatus>,
    pub focus_areas: Option<Vec<String>>,
    pub min_verification_score: Option<u32>,
    pub has_github: Option<bool>,
    pub has_contracts: Option<bool>,
}

#[derive(Debug)]
pub struct CreateEndorsementRequest {
    pub company_id: String,
    pub endorser_company_id: String,
    pub message: String,
}

#[derive(Debug)]
pub struct CreateTestimonialRequest {
    pub company_id: String,
    pub author_name: String,
    pub role: String,
    pub message: String,
}

#[derive(Debug)]
pub struct CreateVouchRequest {
    pub company_id: String,
    pub message: String,
}

#[derive(Debug)]
pub struct StakeReputationRequest {
    pub company_id: String,
    pub amount: u64,
}

#[derive(Clone, Copy, PartialEq, Eq, Structural, Debug)]
pub struct CommunityValidationStats {
    pub total_endorsements: u32,
    pub total_testimonials: u32,
    pub verified_testimonials: u32,
    pub total_vouches: u32,
    pub reputation_score: u32,
    pub reputation_staked: u64,
}

#[derive(Debug)]
pub struct ReputationLeaderboard {
    pub company_id: String,
    pub company_name: String,
    pub reputation_score: u32,
    pub reputation_staked: u64,
}

/// Counts of companies by status.
#[derive(Clone, Copy, PartialEq, Eq, Structural, Debug)]
pub struct RegistryStatistics {
    pub total_companies: u64,
    pub pending_companies: u64,
    pub verified_companies: u64,
    pub trusted_companies: u64,
    pub flagged_companies: u64,
}

// ---------------------------------------------------------------------------
// Challenges
// ---------------------------------------------------------------------------

#[derive(Debug)]
pub struct VerificationRequest {
    pub company_id: String,
    pub verification_type: VerificationType,
    pub proof_data: String,
}

#[derive(Debug)]
pub struct VerificationResult {
    pub success: bool,
    pub message: String,
    pub verified_at: Option<u64>,
}

#[derive(Debug)]
pub struct DomainVerificationChallenge {
    pub company_id: String,
    pub domain: String,
    pub challenge_token: String,
    pub created_at: u64,
    pub expires_at: u64,
}

#[derive(Clone, Copy, PartialEq, Eq, Structural, Debug)]
pub enum ChainType {
    Ethereum,
    Bitcoin,
    ICP,
    Polygon,
    Solana,
    Sui,
    TON,
}

#[derive(Debug)]
pub enum CrossChainVerificationMethod {
    SignMessage { message: String },
    DeploySpecialContract { verification_code: String },
    SetPublicVariable { variable_name: String, value: String },
    SpecialTransaction { transaction_data: String },
}

#[derive(Debug)]
pub struct CrossChainVerificationRequest {
    pub company_id: String,
    pub chain_type: ChainType,
    pub address_or_contract: String,
    pub verification_method: CrossChainVerificationMethod,
}

#[derive(Debug)]
pub struct CrossChainChallenge {
    pub company_id: String,
    pub chain_type: ChainType,
    pub address_or_contract: String,
    pub challenge_message: String,
    pub verification_method: CrossChainVerificationMethod,
    pub created_at: u64,
    pub expires_at: u64,
}

// ---------------------------------------------------------------------------
// External evidence, as handed in by the runtime
// ---------------------------------------------------------------------------

#[derive(Debug)]
pub struct EtherscanTransaction {
    pub hash: String,
    pub from: String,
    pub to: String,
    pub value: String,
    pub input: String,
    pub timestamp: String,
}

#[derive(Debug)]
pub struct EtherscanContractResponse {
    pub status: String,
    pub message: String,
    pub result: Vec<EtherscanTransaction>,
}

#[derive(Debug)]
pub struct BlockchainInfoResponse {
    pub address: String,
    pub hash160: String,
    pub n_tx: u32,
    pub n_unredeemed: u32,
    pub total_received: u64,
    pub total_sent: u64,
    pub final_balance: u64,
}

#[derive(Debug)]
pub struct ICPCanisterResponse {
    pub canister_id: String,
    pub status: String,
    pub controllers: Vec<String>,
    pub memory_size: u64,
    pub cycles: u64,
}

#[derive(Debug)]
pub struct GitHubOrgResponse {
    pub login: String,
    pub id: u64,
    pub name: Option<String>,
    pub blog: Option<String>,
    pub location: Option<String>,
    pub email: Option<String>,
    pub public_repos: u32,
    pub followers: u32,
    pub created_at: String,
}

#[derive(Debug)]
pub struct GitHubRepoResponse {
    pub name: String,
    pub full_name: String,
    pub description: Option<String>,
    pub created_at: String,
    pub updated_at: String,
    pub stargazers_count: u32,
    pub forks_count: u32,
}

/// What came back from the GitHub organization lookup.  The runtime performs
/// the HTTP call and the JSON decoding; the engine decides from the value.
#[derive(Debug)]
pub enum GithubCheckOutcome {
    /// Status 200 and a well-formed body.
    Org(GitHubOrgResponse),
    /// Status 200 but the body did not decode.
    Malformed,
    /// Status 404: the organization does not exist.
    NotFound,
    /// Any other HTTP status.
    ApiError(u32),
    /// The request did not complete.
    Transport,
}

/// What came back from the DNS TXT lookup for a domain.
#[derive(Debug)]
pub enum DnsTxtOutcome {
    /// Status 200: the text of the answer.
    Response(String),
    /// Any other HTTP status.
    HttpError(u32),
    /// The request did not complete.
    Transport,
}

/// What came back from probing a proof URL for continued existence.
#[derive(Debug)]
pub enum ProofProbeOutcome {
    /// The HTTP status the probe answered with.
    Status(u32),
    /// The request did not complete.
    Transport,
}

/// What came back from the transaction-list lookup for an Ethereum contract.
#[derive(Debug)]
pub enum EtherscanOutcome {
    Response(EtherscanContractResponse),
    Malformed,
    HttpError(u32),
    Transport,
}

/// What came back from the address lookup for a Bitcoin address.
#[derive(Debug)]
pub enum BitcoinOutcome {
    Response(BlockchainInfoResponse),
    Malformed,
    HttpError(u32),
    Transport,
}

// ---------------------------------------------------------------------------
// Security events, monitoring tasks, alerts
// ---------------------------------------------------------------------------

#[derive(Clone, Copy, PartialEq, Eq, Structural, Debug)]
pub enum SecurityEventType {
    RateLimitExceeded,
    SuspiciousInput,
    UnauthorizedAccess,
    XSSAttempt,
    ProofTampering,
    CommunityReport,
    RepeatedFailedVerification,
    SecurityScan,
}

#[derive(Clone, Copy, PartialEq, Eq, Structural, Debug)]
pub enum SecuritySeverity {
    Low,
    Medium,
    High,
    Critical,
}

#[derive(Debug)]
pub struct SecurityEvent {
    pub event_id: String,
    pub event_type: SecurityEventType,
    pub principal: Option<Principal>,
    pub timestamp: u64,
    pub severity: SecuritySeverity,
    pub details: String,
    pub ip_address: Option<String>,
    pub user_agent: Option<String>,
}

#[derive(Clone, Copy, PartialEq, Eq, Structural, Debug)]
pub enum TaskType {
    ProofCheck,
    ContentValidation,
    ReputationUpdate,
    SecurityScan,
    CommunityAlert,
}

#[derive(Clone, Copy, PartialEq, Eq, Structural, Debug)]
pub enum TaskPriority {
    Low,
    Medium,
    High,
    Critical,
}

/// A scheduled unit of re-verification or recomputation work with retry
/// semantics.
#[derive(Debug)]
pub struct MonitoringTask {
    pub task_id: String,
    pub task_type: TaskType,
    pub target_company_id: String,
    pub target_proof_id: Option<String>,
    pub scheduled_at: u64,
    pub priority: TaskPriority,
    pub retry_count: u32,
    pub max_retries: u32,
    pub last_error: Option<String>,
}

#[derive(Clone, Copy, PartialEq, Eq, Structural, Debug)]
pub enum AlertType {
    ProofDeleted,
    SecurityBreach,
}

#[derive(Clone, Copy, PartialEq, Eq, Structural, Debug)]
pub enum AlertSeverity {
    Error,
    Critical,
}

/// Immutable once created, except for the `acknowledged` flag.
#[derive(Debug)]
pub struct CommunityAlert {
    pub alert_id: String,
    pub company_id: String,
    pub alert_type: AlertType,
    pub message: String,
    pub evidence: Vec<String>,
    pub created_at: u64,
    pub acknowledged: bool,
    pub severity: AlertSeverity,
}

#[derive(Clone, Copy, PartialEq, Eq, Structural, Debug)]
pub enum ReportType {
    SuspiciousProof,
    RemovedContent,
    FalseClaim,
    Spam,
}

#[derive(Debug)]
pub struct CommunityReport {
    pub reporter_principal: Principal,
    pub report_type: ReportType,
    pub evidence: String,
    pub timestamp: u64,
}

#[derive(Debug)]
pub struct ProofCheckResult {
    pub checker_principal: Principal,
    pub timestamp: u64,
    pub status_found: ProofStatus,
    pub notes: String,
}

/// Accumulated monitoring history for one proof.
#[derive(Debug)]
pub struct ProofMonitoring {
    pub proof_id: String,
    pub company_id: String,
    pub last_checked: u64,
    pub check_results: Vec<ProofCheckResult>,
    pub community_reports: Vec<CommunityReport>,
}

// ---------------------------------------------------------------------------
// Duplication of flat records (every clone is provably equal to its source)
// ---------------------------------------------------------------------------

/// Duplicates an optional string.
pub fn clone_opt_string(s: &Option<String>) -> (r: Option<String>)
    ensures
        r == *s,
{
    match s {
        Some(v) => Some(v.clone()),
        None => None,
    }
}

impl Clone for DomainVerificationChallenge {
    fn clone(&self) -> (r: Self)
        ensures
            r == *self,
    {
        DomainVerificationChallenge {
            company_id: self.company_id.clone(),
            domain: self.domain.clone(),
            challenge_token: self.challenge_token.clone(),
            created_at: self.created_at,
            expires_at: self.expires_at,
        }
    }
}

impl Clone for CrossChainVerificationMethod {
    fn clone(&self) -> (r: Self)
        ensures
            r == *self,
    {
        match self {
            CrossChainVerificationMethod::SignMessage { message } => {
                CrossChainVerificationMethod::SignMessage { message: message.clone() }
            },
            CrossChainVerificationMethod::DeploySpecialContract { verification_code } => {
                CrossChainVerificationMethod::DeploySpecialContract {
                    verification_code: verification_code.clone(),
                }
            },
            CrossChainVerificationMethod::SetPublicVariable { variable_name, value } => {
                CrossChainVerificationMethod::SetPublicVariable {
                    variable_name: variable_name.clone(),
                    value: value.clone(),
                }
            },
            CrossChainVerificationMethod::SpecialTransaction { transaction_data } => {
                CrossChainVerificationMethod::SpecialTransaction {
                    transaction_data: transaction_data.clone(),
                }
            },
        }
    }
}

impl Clone for CrossChainChallenge {
    fn clone(&self) -> (r: Self)
        ensures
            r == *self,
    {
        CrossChainChallenge {
            company_id: self.company_id.clone(),
            chain_type: self.chain_type,
            address_or_contract: self.address_or_contract.clone(),
            challenge_message: self.challenge_message.clone(),
            verification_method: self.verification_method.clone(),
            created_at: self.created_at,
            expires_at: self.expires_at,
        }
    }
}

impl Clone for VerificationProof {
    fn clone(&self) -> (r: Self)
        ensures
            r == *self,
    {
        VerificationProof {
            verification_type: self.verification_type,
            proof_url: self.proof_url.clone(),
            verified_at: self.verified_at,
            verification_method: self.verification_method,
            challenge_data: clone_opt_string(&self.challenge_data),
            status: self.status,
        }
    }
}

impl Clone for Endorsement {
    fn clone(&self) -> (r: Self)
        ensures
            r == *self,
    {
        Endorsement {
            endorser_company_id: self.endorser_company_id.clone(),
            message: self.message.clone(),
            timestamp: self.timestamp,
            endorser_principal: self.endorser_principal,
        }
    }
}

impl Clone for Testimonial {
    fn clone(&self) -> (r: Self)
        ensures
            r == *self,
    {
        Testimonial {
            author_name: self.author_name.clone(),
            role: self.role.clone(),
            message: self.message.clone(),
            timestamp: self.timestamp,
            verified: self.verified,
        }
    }
}

impl Clone for Vouch {
    fn clone(&self) -> (r: Self)
        ensures
            r == *self,
    {
        Vouch {
            voucher_principal: self.voucher_principal,
            message: self.message.clone(),
            timestamp: self.timestamp,
            weight: self.weight,
        }
    }
}

impl Clone for SecurityEvent {
    fn clone(&self) -> (r: Self)
        ensures
            r == *self,
    {
        SecurityEvent {
            event_id: self.event_id.clone(),
            event_type: self.event_type,
            principal: self.principal,
            timestamp: self.timestamp,
            severity: self.severity,
            details: self.details.clone(),
            ip_address: clone_opt_string(&self.ip_address),
            user_agent: clone_opt_string(&self.user_agent),
        }
    }
}

impl Clone for MonitoringTask {
    fn clone(&self) -> (r: Self)
        ensures
            r == *self,
    {
        MonitoringTask {
            task_id: self.task_id.clone(),
            task_type: self.task_type,
            target_company_id: self.target_company_id.clone(),
            target_proof_id: clone_opt_string(&self.target_proof_id),
            scheduled_at: self.scheduled_at,
            priority: self.priority,
            retry_count: self.retry_count,
            max_retries: self.max_retries,
            last_error: clone_opt_string(&self.last_error),
        }
    }
}

impl Clone for CommunityReport {
    fn clone(&self) -> (r: Self)
        ensures
            r == *self,
    {
        CommunityReport {
            reporter_principal: self.reporter_principal,
            report_type: self.report_type,
            evidence: self.evidence.clone(),
            timestamp: self.timestamp,
        }
    }
}

impl Clone for ProofCheckResult {
    fn clone(&self) -> (r: Self)
        ensures
            r == *self,
    {
        ProofCheckResult {
            checker_principal: self.checker_principal,
            timestamp: self.timestamp,
            status_found: self.status_found,
            notes: self.notes.clone(),
        }
    }
}

impl Clone for VerificationResult {
    fn clone(&self) -> (r: Self)
        ensures
            r == *self,
    {
        VerificationResult {
            success: self.success,
            message: self.message.clone(),
            verified_at: self.verified_at,
        }
    }
}

/// Saturating addition on timestamps (expiries and schedules never wrap).
pub fn sat_add(a: u64, b: u64) -> (r: u64)
    ensures
        r == if a + b <= u64::MAX { a + b } else { u64::MAX as int },
{
    if a <= u64::MAX - b {
        a + b
    } else {
        u64::MAX
    }
}

/// Saturating multiplication (used by linear backoff delays).
pub fn sat_mul(a: u64, b: u64) -> (r: u64)
    ensures
        r == if a * b <= u64::MAX { a * b } else { u64::MAX as int },
{
    if b == 0 {
        proof {
            assert(a * 0 == 0) by (nonlinear_arith);
        }
        return 0;
    }
    if a <= u64::MAX / b {
        proof {
            assert(a * b <= (u64::MAX / b) * b <= u64::MAX) by (nonlinear_arith)
                requires a <= u64::MAX / b && b > 0;
        }
        a * b
    } else {
        proof {
            assert(a * b > u64::MAX) by (nonlinear_arith)
                requires a > u64::MAX / b && b > 0;
        }
        u64::MAX
    }
}

#[derive(Debug)]
pub struct MonitoringStats {
    pub total_proofs_monitored: u32,
    pub active_proofs: u32,
    pub removed_proofs: u32,
    pub disputed_proofs: u32,
    pub last_full_scan: u64,
    pub security_events_today: u32,
    pub failed_checks_count: u32,
}

} // verus!
