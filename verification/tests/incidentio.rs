use cosmos_proposal_watcher::incidentio::{alert_events, AlertEvent, IncidentIOConfig};
use cosmos_proposal_watcher::status::ProposalStatus;

fn meta(e: &AlertEvent) -> Vec<(&str, &str)> {
    e.metadata.iter().map(|(k, v)| (k.as_str(), v.as_str())).collect()
}

#[test]
fn deposit_fires_one_warning() {
    let ev = alert_events("c", &vec![7], ProposalStatus::Deposit, false);
    assert_eq!(ev.len(), 1);
    assert_eq!(ev[0].title, "[c] Proposal 7 - Status: Deposit");
    assert_eq!(ev[0].description, "New proposal 7 submitted on chain c - currently in deposit period");
    assert_eq!(ev[0].deduplication_key, "c-7-Deposit");
    assert_eq!(ev[0].status, "firing");
    assert_eq!(
        meta(&ev[0]),
        vec![
            ("team", "governance"),
            ("service", "cosmos-proposal-watcher"),
            ("mainnet", "false"),
            ("severity", "warning")
        ]
    );
}

#[test]
fn voting_resolves_deposit_then_fires() {
    let ev = alert_events("c", &vec![7], ProposalStatus::Voting, true);
    assert_eq!(ev.len(), 2);
    assert_eq!(ev[0].deduplication_key, "c-7-Deposit");
    assert_eq!(ev[0].status, "resolved");
    assert_eq!(ev[0].title, "[c] Proposal 7 moved from Deposit to Voting");
    assert_eq!(ev[0].description, "Proposal 7 on chain c has entered voting period");
    assert_eq!(ev[1].deduplication_key, "c-7-Voting");
    assert_eq!(ev[1].status, "firing");
    assert_eq!(
        ev[1].description,
        "Proposal 7 on chain c has entered voting period - action may be required"
    );
    assert_eq!(meta(&ev[1])[2], ("mainnet", "true"));
}

#[test]
fn passed_resolves_voting_fires_and_acknowledges() {
    let ev = alert_events("c", &vec![7], ProposalStatus::Passed, false);
    assert_eq!(ev.len(), 3);
    assert_eq!(ev[0].deduplication_key, "c-7-Voting");
    assert_eq!(ev[0].title, "[c] Proposal 7 voting ended - Passed");
    assert_eq!(ev[0].description, "Proposal 7 on chain c voting period ended with status: Passed");
    assert_eq!(ev[0].status, "resolved");
    assert_eq!(ev[1].deduplication_key, "c-7-Passed");
    assert_eq!(ev[1].status, "firing");
    assert_eq!(ev[1].description, "Proposal 7 on chain c has PASSED - review for implementation");
    assert_eq!(meta(&ev[1])[3], ("severity", "warning"));
    assert_eq!(ev[2].deduplication_key, "c-7-Passed");
    assert_eq!(ev[2].status, "resolved");
    assert_eq!(ev[2].title, "[c] Proposal 7 - Passed (Acknowledged)");
    assert_eq!(ev[2].description, "Proposal 7 on chain c passed status has been acknowledged");
}

#[test]
fn rejected_and_failed_fire_urgent() {
    let ev = alert_events("c", &vec![3, 4], ProposalStatus::Rejected, false);
    assert_eq!(ev.len(), 4);
    assert_eq!(ev[0].deduplication_key, "c-3-Voting");
    assert_eq!(meta(&ev[0])[3], ("severity", "warning"));
    assert_eq!(ev[1].deduplication_key, "c-3-Rejected");
    assert_eq!(ev[1].description, "Proposal 3 on chain c was REJECTED");
    assert_eq!(meta(&ev[1])[3], ("severity", "urgent"));
    assert_eq!(ev[3].deduplication_key, "c-4-Rejected");
    let ev = alert_events("c", &vec![5], ProposalStatus::Failed, false);
    assert_eq!(ev[1].description, "Proposal 5 on chain c has FAILED");
    assert_eq!(meta(&ev[1])[3], ("severity", "urgent"));
}

#[test]
fn no_token_no_alerts() {
    let cfg = IncidentIOConfig { url: "https://api.incident.io/v2/alert_events/http/x".to_string(), token: None };
    assert!(cfg.alerts("c", &vec![1], ProposalStatus::Deposit, false).is_none());
    assert!(cfg.authorization().is_none());
    let cfg = IncidentIOConfig { token: Some("tok".to_string()), ..cfg };
    assert_eq!(cfg.alerts("c", &vec![1], ProposalStatus::Deposit, false).unwrap().len(), 1);
    assert_eq!(cfg.authorization().unwrap(), "Bearer tok");
}
