use cosmos_proposal_watcher::slack::{build_payload, format_proposal_refs, SlackConfig};
use cosmos_proposal_watcher::status::ProposalStatus;

fn config() -> SlackConfig {
    SlackConfig {
        webhook_url: Some("https://hooks.slack.com/services/X".to_string()),
        channel: "gov-alerts".to_string(),
        assignee: "@here".to_string(),
    }
}

#[test]
fn proposal_refs_list() {
    assert_eq!(format_proposal_refs(&vec![]), "");
    assert_eq!(format_proposal_refs(&vec![12]), "proposal_id=12");
    assert_eq!(format_proposal_refs(&vec![1, 2]), "proposal_id=1,proposal_id=2");
}

#[test]
fn slack_message_on_mainnet() {
    let m = config().alert_message("mantra-1", &vec![1, 2], ProposalStatus::Voting, true);
    assert_eq!(
        m.text,
        "[mantra-1] :warning: MAINNET\nNew proposal(s) found: proposal_id=1,proposal_id=2\nStatus: Voting\n@here"
    );
    assert_eq!(m.channel, "#gov-alerts");
    assert_eq!(m.username, "New Proposal Alert");
    assert!(m.link_names);
    assert_eq!(m.icon_emoji, ":black_question_mark:");
}

#[test]
fn slack_message_on_testnet() {
    let m = config().alert_message("test-2", &vec![9], ProposalStatus::Failed, false);
    assert_eq!(
        m.text,
        "[test-2] :test_tube: TESTNET\nNew proposal(s) found: proposal_id=9\nStatus: Failed\n@here"
    );
}

#[test]
fn slack_payload_carries_the_message() {
    let m = config().alert_message("c", &vec![1], ProposalStatus::Deposit, false);
    let p = build_payload(m);
    let json = serde_json::to_value(&p).unwrap();
    assert_eq!(
        json["text"],
        "[c] :test_tube: TESTNET\nNew proposal(s) found: proposal_id=1\nStatus: Deposit\n@here"
    );
    assert_eq!(json["channel"], "#gov-alerts");
    assert_eq!(json["username"], "New Proposal Alert");
    assert_eq!(json["link_names"], 1);
    assert_eq!(json["icon_emoji"], ":black_question_mark:");
}
