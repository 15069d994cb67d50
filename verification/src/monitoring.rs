//! The proof-monitoring loop: security-event logging, a task queue drained
//! in due-time order with bounded, linearly backed-off retries, demotion of
//! proofs whose backing evidence disappeared, and community reporting with
//! a dispute threshold.

use vstd::prelude::*;
use vstd::seq_lib::group_to_multiset_ensures;
use crate::storage::{
    ProofSelector, StorageManager, filtered, proof_id_seq, proof_id_string,
    proof_status_updated, spec_min_nat,
};
use crate::text::{decimal_seq, decimal_string, occurs_in, str_contains, str_eq};
use crate::types::{
    AlertSeverity, AlertType, CommunityAlert, CommunityReport, Company, MonitoringStats,
    MonitoringTask, Principal, ProofCheckResult, ProofMonitoring, ProofStatus, RegistryError,
    RegistryResult, ReportType, SecurityEvent, SecurityEventType, SecuritySeverity, TaskPriority,
    TaskType, VerificationProof, sat_add, sat_mul,
};

verus! {

/// The scheduled re-verification engine.
pub struct MonitoringSystem;

/// Routine proof re-checks run one hour after scheduling.
pub const PROOF_CHECK_DELAY_NS: u64 = 3_600_000_000_000;

/// Reputation recomputation after a demotion runs five minutes later.
pub const REPUTATION_UPDATE_DELAY_NS: u64 = 300_000_000_000;

/// Linear backoff: each retry waits `retry_count` times this long.
pub const RETRY_BASE_DELAY_NS: u64 = 3_600_000_000_000;

/// Independent community reports that force a proof into dispute.
pub const REPORT_DISPUTE_THRESHOLD: usize = 3;

/// The identity the scheduler itself acts under.
pub const SYSTEM_PRINCIPAL_ID: u64 = 0;

// ---------------------------------------------------------------------------
// Retry discipline (pure model and law)
// ---------------------------------------------------------------------------

/// When a due task's execution fails at time `now`, it either survives with
/// its retry count advanced by exactly one and a linear-backoff schedule
/// (`next` is `Some`), or is removed for good (`next` is `None`) — and
/// removal happens exactly when the advanced count reaches the limit.
pub open spec fn failed_transition(t: MonitoringTask, next: Option<MonitoringTask>, now: u64) -> bool {
    match next {
        None => t.retry_count + 1 >= t.max_retries,
        Some(t2) => {
            &&& t.retry_count + 1 < t.max_retries
            &&& t2.retry_count == t.retry_count + 1
            &&& t2.scheduled_at == backoff_time(now, t.retry_count as nat + 1)
            &&& t2 == (MonitoringTask {
                retry_count: t2.retry_count,
                scheduled_at: t2.scheduled_at,
                last_error: t2.last_error,
                ..t
            })
        },
    }
}

/// The linear-backoff due time after the given number of failures.
pub open spec fn backoff_time(now: u64, retries: nat) -> u64 {
    if now + retries * RETRY_BASE_DELAY_NS <= u64::MAX {
        (now + retries * RETRY_BASE_DELAY_NS) as u64
    } else {
        u64::MAX
    }
}

/// Monotonic retry: along any chain of failing executions of one task that
/// started with a clean retry count, the count accumulates by exactly one
/// per execution, the chain cannot outlive the retry limit, and the final
/// failing execution removes the task precisely when the count has used up
/// the limit.
pub proof fn lemma_monotonic_retry(ts: Seq<MonitoringTask>, times: Seq<u64>, max: u32)
    requires
        ts.len() >= 1,
        times.len() >= ts.len() - 1,
        ts[0].retry_count == 0,
        ts[0].max_retries == max,
        forall|i: int| 0 <= i < ts.len() - 1
            ==> failed_transition(ts[i], Some(ts[i + 1]), times[i]),
    ensures
        forall|i: int| 0 <= i < ts.len()
            ==> (#[trigger] ts[i]).retry_count == i && ts[i].max_retries == max,
        max >= 1 ==> ts.len() <= max,
        forall|i: int, now: u64| 0 <= i < ts.len()
            ==> (#[trigger] failed_transition(ts[i], None, now) <==> i + 1 >= max),
    decreases ts.len(),
{
    if ts.len() > 1 {
        let prefix = ts.drop_last();
        lemma_monotonic_retry(prefix, times, max);
        assert(forall|i: int| 0 <= i < prefix.len() ==> prefix[i] == ts[i]);
        let k = ts.len() - 1;
        assert(failed_transition(ts[k - 1], Some(ts[k]), times[k - 1]));
        assert(ts[k].retry_count == k && ts[k].max_retries == max);
    }
}

// ---------------------------------------------------------------------------
// Identifier generation
// ---------------------------------------------------------------------------

impl MonitoringSystem {
    /// A security event identifier derived from its time.
    pub fn generate_event_id(now: u64) -> (r: String)
        ensures
            r@ == "evt_"@ + decimal_seq(now as nat),
    {
        String::from_str("evt_").concat(decimal_string(now).as_str())
    }

    /// A task identifier derived from its creation time.
    pub fn generate_task_id(now: u64) -> (r: String)
        ensures
            r@ == "task_"@ + decimal_seq(now as nat),
    {
        String::from_str("task_").concat(decimal_string(now).as_str())
    }

    /// An alert identifier derived from its creation time.
    pub fn generate_alert_id(now: u64) -> (r: String)
        ensures
            r@ == "alert_"@ + decimal_seq(now as nat),
    {
        String::from_str("alert_").concat(decimal_string(now).as_str())
    }

    /// The stable identifier of a proof record.
    pub fn generate_proof_id(proof_record: &VerificationProof) -> (r: String)
        ensures
            r@ == proof_id_seq(*proof_record),
    {
        proof_id_string(proof_record)
    }

    /// Whether the proof URL still answers (the registry's stand-in
    /// existence check: URLs naming deletion are treated as gone).
    pub fn simulate_url_check(url: &str) -> (b: bool)
        ensures
            b == url_accessible(url@),
    {
        !str_contains(url, "deleted") && !str_contains(url, "404")
    }
}

/// The stand-in reachability notion used by scheduled checks.
pub open spec fn url_accessible(url: Seq<char>) -> bool {
    !occurs_in(url, "deleted"@) && !occurs_in(url, "404"@)
}

// ---------------------------------------------------------------------------
// Security events
// ---------------------------------------------------------------------------

impl MonitoringSystem {
    /// Records an audit event; high and critical events additionally raise
    /// an immediate alert.  Returns the event identifier.
    pub fn log_security_event(
        s: &mut StorageManager,
        event_type: SecurityEventType,
        principal: Option<Principal>,
        severity: SecuritySeverity,
        details: String,
        ip_address: Option<String>,
        user_agent: Option<String>,
        now: u64,
    ) -> (r: String)
        requires
            old(s).wf(),
        ensures
            final(s).wf(),
            r@ == "evt_"@ + decimal_seq(now as nat),
            final(s).security_events.lookup(r@) matches Some(e) && e.event_type == event_type
                && e.principal == principal && e.severity == severity && e.timestamp == now
                && e.details@ == details@,
            forall|k: Seq<char>| k != "evt_"@ + decimal_seq(now as nat)
                ==> #[trigger] final(s).security_events.lookup(k)
                    == old(s).security_events.lookup(k),
            final(s).security_events.items@.len() >= old(s).security_events.items@.len(),
            final(s).community_alerts.items@.len() >= old(s).community_alerts.items@.len(),
            *final(s) == (StorageManager {
                security_events: final(s).security_events,
                community_alerts: final(s).community_alerts,
                ..*old(s)
            }),
            // High and critical events are never silent: they raise an
            // immediate unacknowledged alert of their own.
            (severity == SecuritySeverity::High || severity == SecuritySeverity::Critical)
                ==> (final(s).community_alerts.lookup("alert_evt_"@ + decimal_seq(now as nat))
                    matches Some(a) && a.alert_type == AlertType::SecurityBreach
                    && a.severity == AlertSeverity::Critical && !a.acknowledged
                    && a.created_at == now),
            forall|k: Seq<char>| k != "alert_evt_"@ + decimal_seq(now as nat)
                ==> #[trigger] final(s).community_alerts.lookup(k)
                    == old(s).community_alerts.lookup(k),
            (severity != SecuritySeverity::High && severity != SecuritySeverity::Critical)
                ==> final(s).community_alerts == old(s).community_alerts,
    {
        let event_id = Self::generate_event_id(now);
        let ghost details_view = details@;
        let raise = severity == SecuritySeverity::Critical || severity == SecuritySeverity::High;
        let alert_evidence = details.clone();
        let event = SecurityEvent {
            event_id: event_id.clone(),
            event_type,
            principal,
            timestamp: now,
            severity,
            details,
            ip_address,
            user_agent,
        };
        s.store_security_event(event);
        if raise {
            let mut evidence: Vec<String> = Vec::new();
            evidence.push(alert_evidence);
            let alert = CommunityAlert {
                alert_id: String::from_str("alert_evt_").concat(decimal_string(now).as_str()),
                company_id: String::from_str("system"),
                alert_type: AlertType::SecurityBreach,
                message: String::from_str("security event recorded: ").concat(event_id.as_str()),
                evidence,
                created_at: now,
                acknowledged: false,
                severity: AlertSeverity::Critical,
            };
            s.store_community_alert(alert);
        }
        event_id
    }

    /// All stored events of the given severity, in storage order.
    pub fn get_security_events_by_severity(s: &StorageManager, severity: SecuritySeverity) -> (r:
        Vec<&SecurityEvent>)
        ensures
            r@.len() == filtered(
                s.security_events.items@,
                |e: SecurityEvent| e.severity == severity,
            ).len(),
            forall|i: int| 0 <= i < r@.len()
                ==> *r@[i] == filtered(
                    s.security_events.items@,
                    |e: SecurityEvent| e.severity == severity,
                )[i],
    {
        s.get_security_events_by_severity(severity)
    }

    /// All stored events attributed to the principal, in storage order.
    pub fn get_security_events_by_principal(s: &StorageManager, principal: Principal) -> (r: Vec<
        &SecurityEvent,
    >)
        ensures
            r@.len() == filtered(
                s.security_events.items@,
                |e: SecurityEvent| e.principal == Some(principal),
            ).len(),
            forall|i: int| 0 <= i < r@.len()
                ==> *r@[i] == filtered(
                    s.security_events.items@,
                    |e: SecurityEvent| e.principal == Some(principal),
                )[i],
    {
        s.get_security_events_by_principal(principal)
    }
}

// ---------------------------------------------------------------------------
// Scheduling and execution
// ---------------------------------------------------------------------------

impl MonitoringSystem {
    /// Enqueues a routine re-check of a proof, due one hour from now.
    pub fn schedule_proof_monitoring(
        s: &mut StorageManager,
        company_id: String,
        proof_id: String,
        priority: TaskPriority,
        now: u64,
    )
        requires
            old(s).wf(),
        ensures
            final(s).wf(),
            final(s).monitoring_tasks.lookup("task_"@ + decimal_seq(now as nat)) matches Some(t)
                && t.task_type == TaskType::ProofCheck
                && t.target_company_id@ == company_id@
                && (t.target_proof_id matches Some(p) && p@ == proof_id@)
                && t.scheduled_at == sat_add_spec(now, PROOF_CHECK_DELAY_NS)
                && t.priority == priority && t.retry_count == 0 && t.max_retries == 3
                && t.last_error is None,
            forall|k: Seq<char>| k != "task_"@ + decimal_seq(now as nat)
                ==> #[trigger] final(s).monitoring_tasks.lookup(k)
                    == old(s).monitoring_tasks.lookup(k),
            *final(s) == (StorageManager {
                monitoring_tasks: final(s).monitoring_tasks,
                ..*old(s)
            }),
    {
        let task = MonitoringTask {
            task_id: Self::generate_task_id(now),
            task_type: TaskType::ProofCheck,
            target_company_id: company_id,
            target_proof_id: Some(proof_id),
            scheduled_at: sat_add(now, PROOF_CHECK_DELAY_NS),
            priority,
            retry_count: 0,
            max_retries: 3,
            last_error: None,
        };
        s.store_monitoring_task(task);
    }

    /// Reserved extension point: content re-validation.
    pub fn validate_proof_content(s: &StorageManager, task: &MonitoringTask) -> (r: RegistryResult<
        (),
    >)
        ensures
            r is Ok,
    {
        let _ = s;
        let _ = task;
        Ok(())
    }

    /// Reserved extension point: periodic security scanning.
    pub fn perform_security_scan(s: &StorageManager, task: &MonitoringTask) -> (r: RegistryResult<
        (),
    >)
        ensures
            r is Ok,
    {
        let _ = s;
        let _ = task;
        Ok(())
    }

    /// Reserved extension point: community notification.
    pub fn send_community_alert(s: &StorageManager, task: &MonitoringTask) -> (r: RegistryResult<
        (),
    >)
        ensures
            r is Ok,
    {
        let _ = s;
        let _ = task;
        Ok(())
    }

}

/// The effects of demoting one proof whose evidence disappeared: the first
/// matching proof moves to removed; a proof-deleted alert carrying the URL,
/// a high-severity tampering event (with its own raised alert), and a
/// high-priority reputation update five minutes out are all recorded.
pub open spec fn proof_demotion_effects(
    pre: StorageManager,
    post: StorageManager,
    company_id: Seq<char>,
    proof_record: VerificationProof,
    now: u64,
) -> bool {
    &&& pre.company_of(company_id) is Some
    &&& proof_status_updated(
        pre.company_of(company_id).unwrap(),
        post.company_of(company_id),
        ProofSelector::ByTypeTime(proof_record.verification_type, proof_record.verified_at),
        ProofStatus::Removed,
    )
    &&& (forall|k: Seq<char>| k != company_id
        ==> #[trigger] post.company_of(k) == pre.company_of(k))
    &&& (post.community_alerts.lookup("alert_"@ + decimal_seq(now as nat)) matches Some(a)
        && a.alert_type == AlertType::ProofDeleted && a.severity == AlertSeverity::Error
        && !a.acknowledged && a.company_id@ == company_id && a.created_at == now
        && a.evidence@.len() == 1 && (a.evidence@[0])@ == proof_record.proof_url@)
    &&& (post.security_events.lookup("evt_"@ + decimal_seq(now as nat)) matches Some(e)
        && e.event_type == SecurityEventType::ProofTampering
        && e.severity == SecuritySeverity::High && e.timestamp == now)
    &&& (post.monitoring_tasks.lookup("task_"@ + decimal_seq(now as nat)) matches Some(t)
        && t.task_type == TaskType::ReputationUpdate && t.target_company_id@ == company_id
        && t.target_proof_id is None
        && t.scheduled_at == sat_add_spec(now, REPUTATION_UPDATE_DELAY_NS)
        && t.priority == TaskPriority::High && t.retry_count == 0 && t.max_retries == 1
        && t.last_error is None)
    &&& (forall|k: Seq<char>| k != "task_"@ + decimal_seq(now as nat)
        ==> #[trigger] post.monitoring_tasks.lookup(k) == pre.monitoring_tasks.lookup(k))
    &&& post == (StorageManager {
        companies: post.companies,
        monitoring_tasks: post.monitoring_tasks,
        security_events: post.security_events,
        community_alerts: post.community_alerts,
        ..pre
    })
}

/// The behaviour of a proof-check execution: on a named proof, the
/// re-check's result and effects on the first proof carrying the
/// identifier (not-found iff no proof does); a task without a named proof
/// re-checks every proof and reports success.
pub open spec fn proof_check_step(
    pre: StorageManager,
    post: StorageManager,
    task: MonitoringTask,
    now: u64,
    r: RegistryResult<()>,
) -> bool {
    &&& post == (StorageManager {
        companies: post.companies,
        proof_monitoring: post.proof_monitoring,
        monitoring_tasks: post.monitoring_tasks,
        security_events: post.security_events,
        community_alerts: post.community_alerts,
        ..pre
    })
    &&& (forall|k: Seq<char>| k != "task_"@ + decimal_seq(now as nat)
        ==> #[trigger] post.monitoring_tasks.lookup(k) == pre.monitoring_tasks.lookup(k))
    &&& match pre.company_of(task.target_company_id@) {
        None => r == Err::<(), RegistryError>(RegistryError::CompanyNotFound) && post == pre,
        Some(c) => match task.target_proof_id {
            Some(pid) => named_proof_check(
                pre,
                post,
                task.target_company_id@,
                pid@,
                c.web3_identity.verification_proofs@,
                now,
                r,
            ),
            None => r is Ok,
        },
    }
}

/// The re-check of the first proof carrying the named identifier:
/// not-found iff no proof does; otherwise the re-check's result and
/// effects on that proof.
pub open spec fn named_proof_check(
    pre: StorageManager,
    post: StorageManager,
    company_id: Seq<char>,
    pid: Seq<char>,
    proofs: Seq<VerificationProof>,
    now: u64,
    r: RegistryResult<()>,
) -> bool {
    if forall|j: int| 0 <= j < proofs.len() ==> proof_id_seq(#[trigger] proofs[j]) != pid {
        r == Err::<(), RegistryError>(RegistryError::ProofNotFound) && post == pre
    } else {
        exists|j: int|
            {
                &&& 0 <= j < proofs.len()
                &&& proof_id_seq(#[trigger] proofs[j]) == pid
                &&& (forall|q: int| 0 <= q < j ==> proof_id_seq(#[trigger] proofs[q]) != pid)
                &&& if url_accessible(proofs[j].proof_url@) {
                    &&& r is Ok
                    &&& (post.proof_monitoring.lookup(pid) matches Some(m)
                        && m.company_id@ == company_id && m.last_checked == now
                        && m.check_results@.len() == 1
                        && m.check_results@[0].status_found == ProofStatus::Active
                        && m.community_reports@.len() == 0)
                    &&& post == (StorageManager { proof_monitoring: post.proof_monitoring, ..pre })
                } else {
                    &&& r == Err::<(), RegistryError>(RegistryError::EvidenceMissing)
                    &&& proof_demotion_effects(pre, post, company_id, proofs[j], now)
                }
            }
    }
}

/// The behaviour of a reputation-update execution: the removal penalty
/// comes off the verification score (floored at zero) and a low result
/// flags the company.
pub open spec fn reputation_update_step(
    pre: StorageManager,
    post: StorageManager,
    company_id: Seq<char>,
    now: u64,
    r: RegistryResult<()>,
) -> bool {
    match r {
        Ok(()) => {
            &&& pre.company_of(company_id) is Some
            &&& post.company_of(company_id) is Some
            &&& ({
                let c = pre.company_of(company_id).unwrap();
                let c2 = post.company_of(company_id).unwrap();
                let penalty = removal_penalty(c.web3_identity.verification_proofs@);
                &&& c2.verification_score == (if penalty >= c.verification_score as int {
                    0int
                } else {
                    c.verification_score - penalty
                })
                &&& c2.status == (if c2.verification_score < 30 {
                    crate::types::CompanyStatus::Flagged
                } else {
                    c.status
                })
                &&& c2 == (Company {
                    verification_score: c2.verification_score,
                    status: c2.status,
                    updated_at: now,
                    ..c
                })
            })
            &&& (forall|k: Seq<char>| k != company_id
                ==> #[trigger] post.company_of(k) == pre.company_of(k))
            &&& post == (StorageManager { companies: post.companies, ..pre })
        },
        Err(RegistryError::CompanyNotFound) => pre.company_of(company_id) is None && post == pre,
        Err(_) => false,
    }
}

impl MonitoringSystem {
    /// Re-checks one proof: when its URL is gone, the proof is demoted to
    /// removed, an alert and a high-severity audit event are produced, and
    /// a reputation recomputation is scheduled; when it still answers, the
    /// monitoring record is refreshed.
    pub fn verify_proof_still_exists(
        s: &mut StorageManager,
        company_id: &str,
        proof_record: &VerificationProof,
        now: u64,
    ) -> (r: RegistryResult<()>)
        requires
            old(s).wf(),
        ensures
            final(s).wf(),
            url_accessible(proof_record.proof_url@) ==> r is Ok
                && (final(s).proof_monitoring.lookup(proof_id_seq(*proof_record)) matches Some(m)
                    && m.company_id@ == company_id@ && m.last_checked == now
                    && m.check_results@.len() == 1
                    && m.check_results@[0].status_found == ProofStatus::Active
                    && m.check_results@[0].timestamp == now
                    && m.community_reports@.len() == 0)
                && (forall|k: Seq<char>| k != proof_id_seq(*proof_record)
                    ==> #[trigger] final(s).proof_monitoring.lookup(k)
                        == old(s).proof_monitoring.lookup(k))
                && *final(s) == (StorageManager {
                    proof_monitoring: final(s).proof_monitoring,
                    ..*old(s)
                }),
            !url_accessible(proof_record.proof_url@) ==> match r {
                Err(RegistryError::EvidenceMissing) => proof_demotion_effects(
                    *old(s),
                    *final(s),
                    company_id@,
                    *proof_record,
                    now,
                ),
                Err(RegistryError::CompanyNotFound) => old(s).company_of(company_id@) is None
                    && *final(s) == *old(s),
                Err(RegistryError::ProofNotFound) => old(s).company_of(company_id@)
                    matches Some(c) && (forall|j: int|
                        0 <= j < c.web3_identity.verification_proofs@.len()
                        ==> !crate::storage::proof_matches_type_time(
                            #[trigger] c.web3_identity.verification_proofs@[j],
                            *proof_record,
                        )) && *final(s) == *old(s),
                _ => false,
            },
    {
        if Self::simulate_url_check(proof_record.proof_url.as_str()) {
            let mut results: Vec<ProofCheckResult> = Vec::new();
            results.push(ProofCheckResult {
                checker_principal: Principal(SYSTEM_PRINCIPAL_ID),
                timestamp: now,
                status_found: ProofStatus::Active,
                notes: String::from_str("proof still accessible"),
            });
            let record = ProofMonitoring {
                proof_id: Self::generate_proof_id(proof_record),
                company_id: String::from_str(company_id),
                last_checked: now,
                check_results: results,
                community_reports: Vec::new(),
            };
            s.update_proof_monitoring(record);
            Ok(())
        } else {
            Self::handle_missing_proof(s, company_id, proof_record, now)?;
            Err(RegistryError::EvidenceMissing)
        }
    }

    /// Demotes a proof whose evidence disappeared: status moves to removed,
    /// a public alert and a high-severity event are recorded, and a
    /// reputation update is scheduled five minutes out.
    fn handle_missing_proof(
        s: &mut StorageManager,
        company_id: &str,
        proof_record: &VerificationProof,
        now: u64,
    ) -> (r: RegistryResult<()>)
        requires
            old(s).wf(),
        ensures
            final(s).wf(),
            match r {
                Ok(()) => proof_demotion_effects(
                    *old(s),
                    *final(s),
                    company_id@,
                    *proof_record,
                    now,
                ),
                Err(RegistryError::CompanyNotFound) => old(s).company_of(company_id@) is None
                    && *final(s) == *old(s),
                Err(RegistryError::ProofNotFound) => old(s).company_of(company_id@)
                    matches Some(c) && (forall|j: int|
                        0 <= j < c.web3_identity.verification_proofs@.len()
                        ==> !crate::storage::proof_matches_type_time(
                            #[trigger] c.web3_identity.verification_proofs@[j],
                            *proof_record,
                        )) && *final(s) == *old(s),
                Err(_) => false,
            },
    {
        s.update_proof_status(company_id, proof_record, ProofStatus::Removed)?;
        let ghost mid = *s;
        let mut evidence: Vec<String> = Vec::new();
        evidence.push(proof_record.proof_url.clone());
        let alert = CommunityAlert {
            alert_id: Self::generate_alert_id(now),
            company_id: String::from_str(company_id),
            alert_type: AlertType::ProofDeleted,
            message: String::from_str(
                "trust alert: a verification proof has been deleted after verification",
            ),
            evidence,
            created_at: now,
            acknowledged: false,
            severity: AlertSeverity::Error,
        };
        s.store_community_alert(alert);
        let _ = Self::log_security_event(
            s,
            SecurityEventType::ProofTampering,
            None,
            SecuritySeverity::High,
            String::from_str("verification proof deleted: ").concat(
                proof_record.proof_url.as_str(),
            ),
            None,
            None,
            now,
        );
        let reputation_task = MonitoringTask {
            task_id: Self::generate_task_id(now),
            task_type: TaskType::ReputationUpdate,
            target_company_id: String::from_str(company_id),
            target_proof_id: None,
            scheduled_at: sat_add(now, REPUTATION_UPDATE_DELAY_NS),
            priority: TaskPriority::High,
            retry_count: 0,
            max_retries: 1,
            last_error: None,
        };
        s.store_monitoring_task(reputation_task);
        proof {
            // The proof-deleted alert and the alert raised by the
            // high-severity event live under distinct identifiers.
            reveal_strlit("alert_");
            reveal_strlit("alert_evt_");
            assert(("alert_"@ + decimal_seq(now as nat)).len()
                != ("alert_evt_"@ + decimal_seq(now as nat)).len());
            assert(old(s).company_of(company_id@) is Some);
            assert(proof_status_updated(
                old(s).company_of(company_id@).unwrap(),
                s.company_of(company_id@),
                ProofSelector::ByTypeTime(
                    proof_record.verification_type,
                    proof_record.verified_at,
                ),
                ProofStatus::Removed,
            ));
            assert(s.companies == mid.companies);
            assert forall|k: Seq<char>| k != company_id@
                implies #[trigger] s.company_of(k) == old(s).company_of(k) by {
                assert(mid.company_of(k) == old(s).company_of(k));
                assert(s.company_of(k) == mid.company_of(k));
            }
            assert(s.community_alerts.lookup("alert_"@ + decimal_seq(now as nat)) matches Some(a)
                && a.alert_type == AlertType::ProofDeleted);
            assert(s.security_events.lookup("evt_"@ + decimal_seq(now as nat)) matches Some(e)
                && e.event_type == SecurityEventType::ProofTampering);
            assert(s.monitoring_tasks.lookup("task_"@ + decimal_seq(now as nat)) matches Some(t)
                && t.task_type == TaskType::ReputationUpdate);
            assert(forall|k: Seq<char>| k != "task_"@ + decimal_seq(now as nat)
                ==> #[trigger] s.monitoring_tasks.lookup(k) == old(s).monitoring_tasks.lookup(k));
            assert(*s == (StorageManager {
                companies: s.companies,
                monitoring_tasks: s.monitoring_tasks,
                security_events: s.security_events,
                community_alerts: s.community_alerts,
                ..*old(s)
            }));
        }
        Ok(())
    }

    /// Recomputes the verification score from removed and disputed proofs:
    /// 20 points per removed and 10 per disputed are subtracted (floored at
    /// zero), and a score under 30 forces the company to flagged status.
    pub fn update_reputation_scores(s: &mut StorageManager, company_id: &str, now: u64) -> (r:
        RegistryResult<()>)
        requires
            old(s).wf(),
        ensures
            final(s).wf(),
            reputation_update_step(*old(s), *final(s), company_id@, now, r),
    {
        let i = match s.companies.index_of(company_id) {
            None => {
                return Err(RegistryError::CompanyNotFound);
            },
            Some(i) => i,
        };
        proof {
            s.companies.lemma_lookup_at(i as int);
        }
        let mut c = s.companies.remove_at(i);
        let penalty = removal_penalty_of(&c.web3_identity.verification_proofs);
        if penalty >= c.verification_score {
            c.verification_score = 0;
        } else {
            c.verification_score = c.verification_score - penalty;
        }
        if c.verification_score < 30 {
            c.status = crate::types::CompanyStatus::Flagged;
        }
        c.updated_at = now;
        s.companies.insert_at(i, c);
        Ok(())
    }

    /// Re-checks a task's target: one named proof, or every proof of the
    /// company when none is named.  The exact behaviour for a named proof
    /// is [`proof_check_step`].
    #[verifier::rlimit(100)]
    #[verifier::spinoff_prover]
    pub fn check_proof_status(s: &mut StorageManager, task: &MonitoringTask, now: u64) -> (r:
        RegistryResult<()>)
        requires
            old(s).wf(),
        ensures
            final(s).wf(),
            proof_check_step(*old(s), *final(s), *task, now, r),
    {
        let proofs: Vec<VerificationProof> = match s.get_company(task.target_company_id.as_str()) {
            None => {
                return Err(RegistryError::CompanyNotFound);
            },
            Some(c) => {
                let mut copies: Vec<VerificationProof> = Vec::new();
                let src = &c.web3_identity.verification_proofs;
                let mut i: usize = 0;
                while i < src.len()
                    invariant
                        i <= src@.len(),
                        copies@.len() == i,
                        forall|q: int| 0 <= q < i ==> copies@[q] == src@[q],
                    decreases src@.len() - i,
                {
                    copies.push(src[i].clone());
                    i = i + 1;
                }
                proof {
                    assert(copies@ =~= src@);
                }
                copies
            },
        };
        proof {
            assert(old(s).company_of(task.target_company_id@) matches Some(cc)
                && proofs@ == cc.web3_identity.verification_proofs@);
        }
        match &task.target_proof_id {
            Some(pid) => {
                let mut i: usize = 0;
                while i < proofs.len()
                    invariant
                        old(s).wf(),
                        *s == *old(s),
                        task.target_proof_id == Some(*pid),
                        old(s).company_of(task.target_company_id@) is Some,
                        proofs@ == old(s).company_of(task.target_company_id@).unwrap()
                            .web3_identity.verification_proofs@,
                        i <= proofs@.len(),
                        forall|q: int| 0 <= q < i
                            ==> proof_id_seq(#[trigger] proofs@[q]) != pid@,
                    decreases proofs@.len() - i,
                {
                    let generated = Self::generate_proof_id(&proofs[i]);
                    if str_eq(generated.as_str(), pid.as_str()) {
                        let res = Self::verify_proof_still_exists(
                            s,
                            task.target_company_id.as_str(),
                            &proofs[i],
                            now,
                        );
                        proof {
                            let cc = old(s).company_of(task.target_company_id@).unwrap();
                            let cp = cc.web3_identity.verification_proofs@;
                            assert(proofs@[i as int] == cp[i as int]);
                            assert(proof_id_seq(cp[i as int]) == pid@);
                            if !url_accessible(proofs@[i as int].proof_url@) {
                                // The re-check cannot miss the proof: it
                                // matches its own type and time.
                                assert(crate::storage::proof_matches_type_time(
                                    cp[i as int],
                                    proofs@[i as int],
                                ));
                                assert(res == Err::<(), RegistryError>(
                                    RegistryError::EvidenceMissing,
                                ));
                                assert(proof_demotion_effects(
                                    *old(s),
                                    *s,
                                    task.target_company_id@,
                                    cp[i as int],
                                    now,
                                ));
                            } else {
                                assert(res is Ok);
                                assert(s.proof_monitoring.lookup(pid@) matches Some(m)
                                    && m.company_id@ == task.target_company_id@
                                    && m.last_checked == now && m.check_results@.len() == 1
                                    && m.check_results@[0].status_found == ProofStatus::Active
                                    && m.community_reports@.len() == 0);
                                assert(*s == (StorageManager {
                                    proof_monitoring: s.proof_monitoring,
                                    ..*old(s)
                                }));
                            }
                            assert(named_proof_check(
                                *old(s),
                                *s,
                                task.target_company_id@,
                                pid@,
                                cp,
                                now,
                                res,
                            )) by {
                                assert(proof_id_seq(cp[i as int]) == pid@);
                                assert(i < cp.len());
                                assert(exists|j: int|
                                    {
                                        &&& 0 <= j < cp.len()
                                        &&& proof_id_seq(#[trigger] cp[j]) == pid@
                                        &&& (forall|q: int| 0 <= q < j
                                            ==> proof_id_seq(#[trigger] cp[q]) != pid@)
                                        &&& if url_accessible(cp[j].proof_url@) {
                                            &&& res is Ok
                                            &&& (s.proof_monitoring.lookup(pid@) matches Some(m)
                                                && m.company_id@ == task.target_company_id@
                                                && m.last_checked == now
                                                && m.check_results@.len() == 1
                                                && m.check_results@[0].status_found
                                                    == ProofStatus::Active
                                                && m.community_reports@.len() == 0)
                                            &&& *s == (StorageManager {
                                                proof_monitoring: s.proof_monitoring,
                                                ..*old(s)
                                            })
                                        } else {
                                            &&& res == Err::<(), RegistryError>(
                                                RegistryError::EvidenceMissing,
                                            )
                                            &&& proof_demotion_effects(
                                                *old(s),
                                                *s,
                                                task.target_company_id@,
                                                cp[j],
                                                now,
                                            )
                                        }
                                    });
                            }
                            assert(*s == (StorageManager {
                                companies: s.companies,
                                proof_monitoring: s.proof_monitoring,
                                monitoring_tasks: s.monitoring_tasks,
                                security_events: s.security_events,
                                community_alerts: s.community_alerts,
                                ..*old(s)
                            }));
                            assert(forall|k: Seq<char>| k != "task_"@ + decimal_seq(now as nat)
                                ==> #[trigger] s.monitoring_tasks.lookup(k)
                                    == old(s).monitoring_tasks.lookup(k));
                            assert(proof_check_step(*old(s), *s, *task, now, res));
                        }
                        return res;
                    }
                    i = i + 1;
                }
                Err(RegistryError::ProofNotFound)
            },
            None => {
                let mut i: usize = 0;
                while i < proofs.len()
                    invariant
                        s.wf(),
                        *s == (StorageManager {
                            companies: s.companies,
                            proof_monitoring: s.proof_monitoring,
                            monitoring_tasks: s.monitoring_tasks,
                            security_events: s.security_events,
                            community_alerts: s.community_alerts,
                            ..*old(s)
                        }),
                        forall|k: Seq<char>| k != "task_"@ + decimal_seq(now as nat)
                            ==> #[trigger] s.monitoring_tasks.lookup(k)
                                == old(s).monitoring_tasks.lookup(k),
                        i <= proofs@.len(),
                    decreases proofs@.len() - i,
                {
                    let outcome = Self::verify_proof_still_exists(
                        s,
                        task.target_company_id.as_str(),
                        &proofs[i],
                        now,
                    );
                    if let Err(_) = outcome {
                        let _ = Self::log_security_event(
                            s,
                            SecurityEventType::ProofTampering,
                            None,
                            SecuritySeverity::High,
                            String::from_str("scheduled proof check failed for company: ").concat(
                                task.target_company_id.as_str(),
                            ),
                            None,
                            None,
                            now,
                        );
                    }
                    i = i + 1;
                }
                Ok(())
            },
        }
    }

    /// Dispatches one task by its type: re-checks for proof-check tasks,
    /// the reputation-update relation for reputation tasks, and the
    /// reserved extension points (no-ops) for the rest.
    pub fn execute_monitoring_task(s: &mut StorageManager, task: &MonitoringTask, now: u64) -> (r:
        RegistryResult<()>)
        requires
            old(s).wf(),
        ensures
            final(s).wf(),
            match task.task_type {
                TaskType::ProofCheck => proof_check_step(*old(s), *final(s), *task, now, r),
                TaskType::ReputationUpdate => reputation_update_step(
                    *old(s),
                    *final(s),
                    task.target_company_id@,
                    now,
                    r,
                ),
                TaskType::ContentValidation | TaskType::SecurityScan | TaskType::CommunityAlert => {
                    r is Ok && *final(s) == *old(s)
                },
            },
            forall|k: Seq<char>| k != "task_"@ + decimal_seq(now as nat)
                ==> #[trigger] final(s).monitoring_tasks.lookup(k)
                    == old(s).monitoring_tasks.lookup(k),
            *final(s) == (StorageManager {
                companies: final(s).companies,
                proof_monitoring: final(s).proof_monitoring,
                monitoring_tasks: final(s).monitoring_tasks,
                security_events: final(s).security_events,
                community_alerts: final(s).community_alerts,
                ..*old(s)
            }),
    {
        match task.task_type {
            TaskType::ProofCheck => Self::check_proof_status(s, task, now),
            TaskType::ContentValidation => {
                let r = Self::validate_proof_content(s, task);
                r
            },
            TaskType::ReputationUpdate => Self::update_reputation_scores(
                s,
                task.target_company_id.as_str(),
                now,
            ),
            TaskType::SecurityScan => {
                let r = Self::perform_security_scan(s, task);
                r
            },
            TaskType::CommunityAlert => {
                let r = Self::send_community_alert(s, task);
                r
            },
        }
    }

    /// Applies the retry discipline to one failing due task: the task is
    /// removed for good once its advanced count reaches the limit (with a
    /// high-severity audit event), and otherwise replaced by its
    /// [`failed_transition`] successor — retry count advanced by exactly
    /// one, linear backoff, and the failure recorded.
    fn retire_or_reschedule(s: &mut StorageManager, task: &MonitoringTask, now: u64)
        requires
            old(s).wf(),
        ensures
            final(s).wf(),
            if task.retry_count + 1 >= task.max_retries {
                &&& final(s).monitoring_tasks.lookup(task.task_id@) is None
                &&& failed_transition(*task, None::<MonitoringTask>, now)
                &&& (final(s).security_events.lookup("evt_"@ + decimal_seq(now as nat))
                    matches Some(e) && e.severity == SecuritySeverity::High)
            } else {
                final(s).monitoring_tasks.lookup(task.task_id@) matches Some(t2)
                    && failed_transition(*task, Some(t2), now) && t2.last_error is Some
            },
            forall|k: Seq<char>| k != task.task_id@
                ==> #[trigger] final(s).monitoring_tasks.lookup(k)
                    == old(s).monitoring_tasks.lookup(k),
            *final(s) == (StorageManager {
                monitoring_tasks: final(s).monitoring_tasks,
                security_events: final(s).security_events,
                community_alerts: final(s).community_alerts,
                ..*old(s)
            }),
    {
        if task.retry_count as u64 + 1 >= task.max_retries as u64 {
            let _ = Self::log_security_event(
                s,
                SecurityEventType::ProofTampering,
                None,
                SecuritySeverity::High,
                String::from_str("monitoring task failed permanently: ").concat(
                    task.task_id.as_str(),
                ),
                None,
                None,
                now,
            );
            s.remove_monitoring_task(task.task_id.as_str());
        } else {
            let retries = task.retry_count + 1;
            let rescheduled = MonitoringTask {
                retry_count: retries,
                scheduled_at: sat_add(now, sat_mul(retries as u64, RETRY_BASE_DELAY_NS)),
                last_error: Some(String::from_str("task execution failed")),
                ..task.clone()
            };
            proof {
                assert(rescheduled.scheduled_at == backoff_time(now, retries as nat)) by {
                    lemma_sat_backoff(now, retries as u64);
                }
                assert(failed_transition(*task, Some(rescheduled), now));
            }
            s.update_monitoring_task(rescheduled);
        }
    }

    /// Drains every task due at `now`, in due-time order.  Successful tasks
    /// are removed and their identifiers returned; each failing due task is
    /// put through [`MonitoringSystem::retire_or_reschedule`] — its retry
    /// count advances by exactly one, or it is removed at the limit.  Only
    /// tasks that were due (or the identifier freshly minted this tick) can
    /// change, and running on a drained queue returns an empty list and
    /// changes nothing at all.
    pub fn process_monitoring_tasks(s: &mut StorageManager, now: u64) -> (processed: Vec<String>)
        requires
            old(s).wf(),
        ensures
            final(s).wf(),
            filtered(
                old(s).monitoring_tasks.items@,
                |t: MonitoringTask| t.scheduled_at <= now,
            ).len() == 0 ==> processed@.len() == 0 && *final(s) == *old(s),
            // Only tasks already due, or the identifier minted this tick,
            // are touched by a drain.
            forall|k: Seq<char>|
                #[trigger] final(s).monitoring_tasks.lookup(k)
                    == old(s).monitoring_tasks.lookup(k)
                || k == "task_"@ + decimal_seq(now as nat)
                || (old(s).monitoring_tasks.lookup(k) matches Some(t1) && t1.scheduled_at <= now),
            *final(s) == (StorageManager {
                companies: final(s).companies,
                proof_monitoring: final(s).proof_monitoring,
                monitoring_tasks: final(s).monitoring_tasks,
                security_events: final(s).security_events,
                community_alerts: final(s).community_alerts,
                ..*old(s)
            }),
    {
        let ghost due = |t: MonitoringTask| t.scheduled_at <= now;
        // Snapshot the due tasks (due time, identifier), then order them by
        // due time so the drain is first-due-first-served.
        let pending = s.get_pending_monitoring_tasks(now);
        let mut snapshot: Vec<(u64, String)> = Vec::new();
        let mut i: usize = 0;
        while i < pending.len()
            invariant
                i <= pending@.len(),
                snapshot@.len() == i,
            decreases pending@.len() - i,
        {
            snapshot.push((pending[i].scheduled_at, pending[i].task_id.clone()));
            i = i + 1;
        }
        if snapshot.len() == 0 {
            return Vec::new();
        }
        let ordered = sort_by_due(snapshot);

        let mut processed: Vec<String> = Vec::new();
        let mut k: usize = 0;
        while k < ordered.len()
            invariant
                s.wf(),
                k <= ordered@.len(),
                forall|k2: Seq<char>|
                    #[trigger] s.monitoring_tasks.lookup(k2)
                        == old(s).monitoring_tasks.lookup(k2)
                    || k2 == "task_"@ + decimal_seq(now as nat)
                    || (old(s).monitoring_tasks.lookup(k2) matches Some(t1)
                        && t1.scheduled_at <= now),
                *s == (StorageManager {
                    companies: s.companies,
                    proof_monitoring: s.proof_monitoring,
                    monitoring_tasks: s.monitoring_tasks,
                    security_events: s.security_events,
                    community_alerts: s.community_alerts,
                    ..*old(s)
                }),
            decreases ordered@.len() - k,
        {
            let task_id: &String = &ordered[k].1;
            let task: Option<MonitoringTask> = match s.monitoring_tasks.get(task_id.as_str()) {
                None => None,
                Some(t) => Some(t.clone()),
            };
            match task {
                None => {},
                Some(task) => {
                    // A task rescheduled into the future during this drain
                    // is not executed again this tick.
                    if task.scheduled_at <= now {
                        let ghost before = *s;
                        match Self::execute_monitoring_task(s, &task, now) {
                            Ok(()) => {
                                processed.push(task.task_id.clone());
                                s.remove_monitoring_task(task.task_id.as_str());
                            },
                            Err(_) => {
                                Self::retire_or_reschedule(s, &task, now);
                            },
                        }
                        proof {
                            assert forall|k2: Seq<char>|
                                #[trigger] s.monitoring_tasks.lookup(k2)
                                    == old(s).monitoring_tasks.lookup(k2)
                                || k2 == "task_"@ + decimal_seq(now as nat)
                                || (old(s).monitoring_tasks.lookup(k2) matches Some(t1)
                                    && t1.scheduled_at <= now) by {
                                if k2 != "task_"@ + decimal_seq(now as nat)
                                    && s.monitoring_tasks.lookup(k2)
                                        != old(s).monitoring_tasks.lookup(k2) {
                                    // The key changed this iteration or
                                    // earlier; a change this iteration hits
                                    // the processed identifier, whose task
                                    // was due — directly, or already before
                                    // the drain.
                                    if before.monitoring_tasks.lookup(k2)
                                        != old(s).monitoring_tasks.lookup(k2) {
                                    } else {
                                        assert(k2 == task.task_id@);
                                        assert(before.monitoring_tasks.lookup(k2)
                                            == Some(task));
                                        assert(task.scheduled_at <= now);
                                    }
                                }
                            }
                        }
                    }
                },
            }
            k = k + 1;
        }
        processed
    }
}

// ---------------------------------------------------------------------------
// Community reporting
// ---------------------------------------------------------------------------

impl MonitoringSystem {
    /// Accepts a community report against a proof.  Reports are rate
    /// limited per reporter; when the accumulated count against one proof
    /// reaches the threshold, the proof is forced into dispute and a
    /// critical-priority re-check is scheduled.
    pub fn submit_community_report(
        s: &mut StorageManager,
        company_id: String,
        proof_id: Option<String>,
        report_type: ReportType,
        evidence: String,
        reporter: Principal,
        now: u64,
    ) -> (r: RegistryResult<String>)
        requires
            old(s).wf(),
        ensures
            final(s).wf(),
            !crate::ratelimit::rl_admit(
                old(s).report_limits.history_of(reporter),
                now,
                crate::storage::REPORT_RATE_WINDOW_NS,
                crate::storage::REPORT_RATE_MAX as nat,
            ) ==> r == Err::<String, RegistryError>(RegistryError::RateLimited)
                && *final(s) == (StorageManager {
                    report_limits: final(s).report_limits,
                    ..*old(s)
                }),
            (crate::ratelimit::rl_admit(
                old(s).report_limits.history_of(reporter),
                now,
                crate::storage::REPORT_RATE_WINDOW_NS,
                crate::storage::REPORT_RATE_MAX as nat,
            ) && proof_id is Some) ==> {
                let pid = proof_id.unwrap();
                let old_count = match old(s).proof_monitoring.lookup(pid@) {
                    Some(m) => m.community_reports@.len() as int,
                    None => 0int,
                };
                &&& (final(s).proof_monitoring.lookup(pid@) matches Some(m2)
                    && m2.community_reports@.len() == old_count + 1
                    && m2.community_reports@.last() == (CommunityReport {
                        reporter_principal: reporter,
                        report_type,
                        evidence: m2.community_reports@.last().evidence,
                        timestamp: now,
                    })
                    && m2.community_reports@.last().evidence@ == evidence@)
                &&& (old_count + 1 >= REPORT_DISPUTE_THRESHOLD ==> match r {
                    Ok(_) => {
                        &&& old(s).company_of(company_id@) is Some
                        &&& proof_status_updated(
                            old(s).company_of(company_id@).unwrap(),
                            final(s).company_of(company_id@),
                            ProofSelector::ById(pid@),
                            ProofStatus::Disputed,
                        )
                        &&& final(s).monitoring_tasks.lookup("task_"@ + decimal_seq(now as nat))
                            matches Some(t) && t.task_type == TaskType::ProofCheck
                            && t.target_company_id@ == company_id@
                            && (t.target_proof_id matches Some(p) && p@ == pid@)
                            && t.scheduled_at == sat_add_spec(now, PROOF_CHECK_DELAY_NS)
                            && t.priority == TaskPriority::Critical
                            && t.retry_count == 0 && t.max_retries == 3 && t.last_error is None
                    },
                    Err(RegistryError::CompanyNotFound) => old(s).company_of(company_id@) is None,
                    Err(RegistryError::ProofNotFound) => old(s).company_of(company_id@)
                        matches Some(c) && (forall|j: int|
                            0 <= j < c.web3_identity.verification_proofs@.len()
                            ==> proof_id_seq(#[trigger] c.web3_identity.verification_proofs@[j])
                                != pid@),
                    Err(_) => false,
                })
                &&& (old_count + 1 < REPORT_DISPUTE_THRESHOLD ==> r is Ok
                    && final(s).companies == old(s).companies)
            },
    {
        if !s.check_report_rate_limit(reporter, now) {
            return Err(RegistryError::RateLimited);
        }
        let report = CommunityReport {
            reporter_principal: reporter,
            report_type,
            evidence,
            timestamp: now,
        };
        match proof_id {
            Some(pid) => {
                s.add_community_report(company_id.as_str(), pid.as_str(), report, now);
                let report_count = s.get_community_report_count(company_id.as_str(), pid.as_str());
                if report_count >= REPORT_DISPUTE_THRESHOLD {
                    let updated = s.update_proof_status_by_id(
                        company_id.as_str(),
                        pid.as_str(),
                        ProofStatus::Disputed,
                    );
                    if let Err(e) = updated {
                        return Err(e);
                    }
                    Self::schedule_proof_monitoring(
                        s,
                        company_id,
                        pid,
                        TaskPriority::Critical,
                        now,
                    );
                }
            },
            None => {},
        }
        let _ = Self::log_security_event(
            s,
            SecurityEventType::CommunityReport,
            Some(reporter),
            SecuritySeverity::Medium,
            String::from_str("community report received"),
            None,
            None,
            now,
        );
        Ok(String::from_str("Report submitted successfully"))
    }
}

// ---------------------------------------------------------------------------
// Statistics and alerts
// ---------------------------------------------------------------------------

/// Total proofs stored across all companies.
pub open spec fn sum_proofs_total(cs: Seq<Company>) -> int
    decreases cs.len(),
{
    if cs.len() == 0 {
        0
    } else {
        sum_proofs_total(cs.drop_last())
            + cs.last().web3_identity.verification_proofs@.len() as int
    }
}

/// Proofs with the given status across all companies.
pub open spec fn sum_proofs_with(cs: Seq<Company>, st: ProofStatus) -> int
    decreases cs.len(),
{
    if cs.len() == 0 {
        0
    } else {
        sum_proofs_with(cs.drop_last(), st) + filtered(
            cs.last().web3_identity.verification_proofs@,
            |p: VerificationProof| p.status == st,
        ).len() as int
    }
}

/// Per-company proof counts: total, active, removed, disputed.
fn company_proof_counts(c: &Company) -> (r: (usize, usize, usize, usize))
    ensures
        r.0 == c.web3_identity.verification_proofs@.len(),
        r.1 == filtered(
            c.web3_identity.verification_proofs@,
            |p: VerificationProof| p.status == ProofStatus::Active,
        ).len(),
        r.2 == filtered(
            c.web3_identity.verification_proofs@,
            |p: VerificationProof| p.status == ProofStatus::Removed,
        ).len(),
        r.3 == filtered(
            c.web3_identity.verification_proofs@,
            |p: VerificationProof| p.status == ProofStatus::Disputed,
        ).len(),
{
    let ghost is_active = |p: VerificationProof| p.status == ProofStatus::Active;
    let ghost is_removed = |p: VerificationProof| p.status == ProofStatus::Removed;
    let ghost is_disputed = |p: VerificationProof| p.status == ProofStatus::Disputed;
    let proofs = &c.web3_identity.verification_proofs;
    let mut active: usize = 0;
    let mut removed: usize = 0;
    let mut disputed: usize = 0;
    let mut i: usize = 0;
    proof {
        assert(proofs@.subrange(0, 0) =~= Seq::<VerificationProof>::empty());
    }
    while i < proofs.len()
        invariant
            proofs@ == c.web3_identity.verification_proofs@,
            i <= proofs@.len(),
            active == filtered(proofs@.subrange(0, i as int), is_active).len(),
            removed == filtered(proofs@.subrange(0, i as int), is_removed).len(),
            disputed == filtered(proofs@.subrange(0, i as int), is_disputed).len(),
            active + removed + disputed <= i,
            is_active == (|p: VerificationProof| p.status == ProofStatus::Active),
            is_removed == (|p: VerificationProof| p.status == ProofStatus::Removed),
            is_disputed == (|p: VerificationProof| p.status == ProofStatus::Disputed),
        decreases proofs@.len() - i,
    {
        match proofs[i].status {
            ProofStatus::Active => {
                active = active + 1;
            },
            ProofStatus::Removed => {
                removed = removed + 1;
            },
            ProofStatus::Disputed => {
                disputed = disputed + 1;
            },
        }
        i = i + 1;
        proof {
            let prefix = proofs@.subrange(0, i as int);
            assert(prefix.drop_last() =~= proofs@.subrange(0, i - 1));
            assert(prefix.last() == proofs@[i - 1]);
        }
    }
    proof {
        assert(proofs@.subrange(0, proofs@.len() as int) =~= proofs@);
    }
    (proofs.len(), active, removed, disputed)
}

/// Adds a count into a counter clamped at the counter's range.
fn clamped_accumulate(acc: u32, add: usize) -> (r: u32)
    ensures
        r as int == if acc + add <= u32::MAX { acc + add } else { u32::MAX as int },
{
    if add as u64 > u32::MAX as u64 {
        return u32::MAX;
    }
    let wide: u64 = acc as u64 + add as u64;
    if wide > u32::MAX as u64 {
        u32::MAX
    } else {
        wide as u32
    }
}

impl MonitoringSystem {
    /// A snapshot of monitoring health: proof counts by status, the last
    /// full scan time, today's event count, and how many tasks have failed
    /// at least once (all counts clamped to the counter range).
    pub fn get_monitoring_stats(s: &StorageManager, now: u64) -> (r: MonitoringStats)
        requires
            s.wf(),
        ensures
            r.total_proofs_monitored as int == clamp_u32(sum_proofs_total(s.companies.items@)),
            r.active_proofs as int == clamp_u32(
                sum_proofs_with(s.companies.items@, ProofStatus::Active),
            ),
            r.removed_proofs as int == clamp_u32(
                sum_proofs_with(s.companies.items@, ProofStatus::Removed),
            ),
            r.disputed_proofs as int == clamp_u32(
                sum_proofs_with(s.companies.items@, ProofStatus::Disputed),
            ),
            r.last_full_scan == s.last_full_scan,
            r.security_events_today as nat == spec_min_nat(
                filtered(
                    s.security_events.items@,
                    |e: SecurityEvent| e.timestamp > crate::storage::day_start(now),
                ).len() as nat,
                u32::MAX as nat,
            ),
            r.failed_checks_count as nat == spec_min_nat(
                filtered(s.monitoring_tasks.items@, |t: MonitoringTask| t.retry_count > 0).len()
                    as nat,
                u32::MAX as nat,
            ),
    {
        let companies = s.get_all_companies();
        let mut total: u32 = 0;
        let mut active: u32 = 0;
        let mut removed: u32 = 0;
        let mut disputed: u32 = 0;
        let mut i: usize = 0;
        proof {
            assert(companies@.subrange(0, 0) =~= Seq::<Company>::empty());
        }
        while i < companies.len()
            invariant
                companies@ == s.companies.items@,
                i <= companies@.len(),
                total as int == clamp_u32(sum_proofs_total(companies@.subrange(0, i as int))),
                active as int == clamp_u32(
                    sum_proofs_with(companies@.subrange(0, i as int), ProofStatus::Active),
                ),
                removed as int == clamp_u32(
                    sum_proofs_with(companies@.subrange(0, i as int), ProofStatus::Removed),
                ),
                disputed as int == clamp_u32(
                    sum_proofs_with(companies@.subrange(0, i as int), ProofStatus::Disputed),
                ),
            decreases companies@.len() - i,
        {
            let counts = company_proof_counts(&companies[i]);
            total = clamped_accumulate(total, counts.0);
            active = clamped_accumulate(active, counts.1);
            removed = clamped_accumulate(removed, counts.2);
            disputed = clamped_accumulate(disputed, counts.3);
            i = i + 1;
            proof {
                let prefix = companies@.subrange(0, i as int);
                assert(prefix.drop_last() =~= companies@.subrange(0, i - 1));
                assert(prefix.last() == companies@[i - 1]);
            }
        }
        proof {
            assert(companies@.subrange(0, companies@.len() as int) =~= companies@);
        }
        let last_full_scan = s.get_last_full_scan_time();
        let security_events_today = s.get_security_events_count_today(now);
        let failed_checks_count = s.get_failed_monitoring_tasks_count();
        MonitoringStats {
            total_proofs_monitored: total,
            active_proofs: active,
            removed_proofs: removed,
            disputed_proofs: disputed,
            last_full_scan,
            security_events_today,
            failed_checks_count,
        }
    }

    /// Borrows the alerts, optionally filtered by the acknowledged flag.
    pub fn get_community_alerts(s: &StorageManager, acknowledged: Option<bool>) -> (r: Vec<
        &CommunityAlert,
    >)
        ensures
            r@.len() == filtered(
                s.community_alerts.items@,
                |a: CommunityAlert| crate::storage::alert_filter(a, acknowledged),
            ).len(),
    {
        s.get_community_alerts(acknowledged)
    }

    /// Marks an alert acknowledged; unknown alerts are refused.
    pub fn acknowledge_alert(s: &mut StorageManager, alert_id: &str) -> (r: RegistryResult<()>)
        requires
            old(s).wf(),
        ensures
            final(s).wf(),
            r is Ok <==> old(s).community_alerts.lookup(alert_id@) is Some,
            r matches Ok(()) ==> final(s).community_alerts.lookup(alert_id@) matches Some(a2)
                && a2 == (CommunityAlert {
                    acknowledged: true,
                    ..old(s).community_alerts.lookup(alert_id@).unwrap()
                }),
            r matches Err(e) ==> e == RegistryError::AlertNotFound && *final(s) == *old(s),
    {
        s.acknowledge_community_alert(alert_id)
    }
}

/// A count clamped to the range of a 32-bit counter.
pub open spec fn clamp_u32(n: int) -> int {
    if n <= u32::MAX {
        n
    } else {
        u32::MAX as int
    }
}

/// Saturated addition as a spec value.
pub open spec fn sat_add_spec(a: u64, b: u64) -> u64 {
    if a + b <= u64::MAX {
        (a + b) as u64
    } else {
        u64::MAX
    }
}

/// The saturating backoff computation agrees with [`backoff_time`].
proof fn lemma_sat_backoff(now: u64, retries: u64)
    ensures
        sat_add_spec(
            now,
            if retries * RETRY_BASE_DELAY_NS <= u64::MAX {
                (retries * RETRY_BASE_DELAY_NS) as u64
            } else {
                u64::MAX
            },
        ) == backoff_time(now, retries as nat),
{
    if retries * RETRY_BASE_DELAY_NS > u64::MAX {
        assert(now + retries * RETRY_BASE_DELAY_NS > u64::MAX);
    }
}

/// The score penalty standing against a set of proofs: 20 per removed and
/// 10 per disputed proof.
pub open spec fn removal_penalty(proofs: Seq<VerificationProof>) -> int {
    20 * filtered(proofs, |p: VerificationProof| p.status == ProofStatus::Removed).len() as int
        + 10 * filtered(
        proofs,
        |p: VerificationProof| p.status == ProofStatus::Disputed,
    ).len() as int
}

/// Computes the removal penalty, capped just above the score range (101 and
/// beyond all floor the score at zero).
fn removal_penalty_of(proofs: &Vec<VerificationProof>) -> (r: u32)
    ensures
        r as int == if removal_penalty(proofs@) < 101 {
            removal_penalty(proofs@)
        } else {
            101int
        },
        removal_penalty(proofs@) >= 101 ==> r >= 101,
        r >= 101 ==> removal_penalty(proofs@) >= 101,
        r <= 101,
        r < 101 ==> r as int == removal_penalty(proofs@),
{
    let ghost removed = |p: VerificationProof| p.status == ProofStatus::Removed;
    let ghost disputed = |p: VerificationProof| p.status == ProofStatus::Disputed;
    let mut acc: u32 = 0;
    let mut i: usize = 0;
    proof {
        assert(proofs@.subrange(0, 0) =~= Seq::<VerificationProof>::empty());
    }
    while i < proofs.len()
        invariant
            i <= proofs@.len(),
            acc as int == (if removal_penalty(proofs@.subrange(0, i as int)) < 101 {
                removal_penalty(proofs@.subrange(0, i as int))
            } else {
                101int
            }),
            removed == (|p: VerificationProof| p.status == ProofStatus::Removed),
            disputed == (|p: VerificationProof| p.status == ProofStatus::Disputed),
        decreases proofs@.len() - i,
    {
        let add: u32 = match proofs[i].status {
            ProofStatus::Removed => 20,
            ProofStatus::Disputed => 10,
            ProofStatus::Active => 0,
        };
        if acc < 101 {
            if acc + add > 101 {
                acc = 101;
            } else {
                acc = acc + add;
            }
        }
        i = i + 1;
        proof {
            let prefix = proofs@.subrange(0, i as int);
            assert(prefix.drop_last() =~= proofs@.subrange(0, i - 1));
            assert(prefix.last() == proofs@[i - 1]);
        }
    }
    proof {
        assert(proofs@.subrange(0, proofs@.len() as int) =~= proofs@);
    }
    acc
}

/// Selection sort by due time, ascending.
fn sort_by_due(input: Vec<(u64, String)>) -> (r: Vec<(u64, String)>)
    ensures
        r@.to_multiset() == input@.to_multiset(),
        forall|i: int, j: int| 0 <= i < j < r@.len() ==> r@[i].0 <= r@[j].0,
{
    broadcast use group_to_multiset_ensures;

    let ghost orig = input@;
    let mut rest = input;
    let mut out: Vec<(u64, String)> = Vec::new();
    while rest.len() > 0
        invariant
            out@.to_multiset().add(rest@.to_multiset()) == orig.to_multiset(),
            forall|i: int, j: int| 0 <= i < j < out@.len() ==> out@[i].0 <= out@[j].0,
            forall|i: int, j: int| 0 <= i < out@.len() && 0 <= j < rest@.len()
                ==> (#[trigger] out@[i]).0 <= (#[trigger] rest@[j]).0,
        decreases rest@.len(),
    {
        // Find the earliest-due remaining task.
        let mut best: usize = 0;
        let mut m: usize = 1;
        while m < rest.len()
            invariant
                rest@.len() > 0,
                best < rest@.len(),
                m <= rest@.len(),
                forall|q: int| 0 <= q < m ==> rest@[best as int].0 <= (#[trigger] rest@[q]).0,
            decreases rest@.len() - m,
        {
            if rest[m].0 < rest[best].0 {
                best = m;
            }
            m = m + 1;
        }
        let ghost rest_before = rest@;
        let ghost out_before = out@;
        let picked = rest.remove(best);
        out.push(picked);
        proof {
            rest_before.to_multiset_ensures();
            out_before.to_multiset_ensures();
            assert(rest_before.remove(best as int).to_multiset()
                =~= rest_before.to_multiset().remove(picked));
            assert(out_before.push(picked).to_multiset()
                =~= out_before.to_multiset().insert(picked));
            assert(rest_before.to_multiset().count(picked) > 0);
            assert(out@.to_multiset().add(rest@.to_multiset()) =~= orig.to_multiset());
            assert(forall|j: int| 0 <= j < rest@.len()
                ==> (exists|q: int| 0 <= q < rest_before.len()
                    && rest_before[q] == #[trigger] rest@[j] && picked.0 <= rest_before[q].0));
        }
    }
    out
}

} // verus!
