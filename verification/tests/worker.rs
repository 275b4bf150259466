use cosmos_proposal_watcher::id_list::{parse_stored_ids, store_text};
use cosmos_proposal_watcher::config::default::refresh;
use cosmos_proposal_watcher::config::{ChainConfig, Config, RefreshPeriod};
use cosmos_proposal_watcher::slack::SlackConfig;
use cosmos_proposal_watcher::incidentio::IncidentIOConfig;
use cosmos_proposal_watcher::status::ProposalStatus;
use cosmos_proposal_watcher::worker::{
    accepts_event, grpc_uri, select_new_proposals, initial_stage, step, tracking_config, Action, Event,
    ProposalInfo, Stage, TrackingConfig,
};

const NOW: i64 = 1_700_000_000;

fn proposal(id: u64, submit: i64, types: &[&str]) -> ProposalInfo {
    ProposalInfo {
        id,
        submit_time: Some(submit),
        voting_start_time: Some(submit + 100),
        voting_end_time: Some(submit + 200),
        message_types: types.iter().map(|s| s.to_string()).collect(),
    }
}

fn tracking(filter_status: Vec<i32>, slack: bool, incident: bool) -> TrackingConfig {
    TrackingConfig {
        grpc_addr: "https://grpc.mantrachain.io".to_string(),
        chain_id: "mantra-1".to_string(),
        refresh: refresh(),
        filter_status,
        filter_type: None,
        slack_config: if slack {
            Some(SlackConfig { webhook_url: None, channel: "c".to_string(), assignee: "a".to_string() })
        } else {
            None
        },
        incidentio_config: if incident {
            Some(IncidentIOConfig { url: "u".to_string(), token: Some("t".to_string()) })
        } else {
            None
        },
        is_mainnet: true,
    }
}

#[test]
fn selection_uses_window_store_and_types() {
    let ps = vec![
        proposal(1, NOW - 10, &["/a"]),
        proposal(2, NOW - 60, &["/a"]),
        proposal(3, NOW - 59, &["/b"]),
        proposal(4, NOW - 5, &["/a", "/b"]),
    ];
    assert_eq!(select_new_proposals(&ps, ProposalStatus::Deposit, NOW, 30, &vec![], &None), vec![1, 3, 4]);
    assert_eq!(select_new_proposals(&ps, ProposalStatus::Deposit, NOW, 30, &vec![4], &None), vec![1, 3]);
    let only_b = Some(vec!["/b".to_string()]);
    assert_eq!(select_new_proposals(&ps, ProposalStatus::Deposit, NOW, 30, &vec![], &only_b), vec![3, 4]);
    // voting starts 100 s after submission in these proposals
    assert_eq!(select_new_proposals(&ps, ProposalStatus::Voting, NOW + 100, 30, &vec![], &None), vec![1, 3, 4]);
    assert_eq!(select_new_proposals(&ps, ProposalStatus::Failed, NOW + 200, 30, &vec![1], &None), vec![3, 4]);
}

fn expect_fetch(a: &Action) -> ProposalStatus {
    match a {
        Action::FetchProposals { status } => *status,
        _ => panic!("expected a fetch"),
    }
}

#[test]
fn round_alerts_new_proposals_and_appends_them_to_the_store() {
    let cfg = tracking(vec![1, 2], true, true);
    let s = initial_stage();
    assert!(accepts_event(&cfg, &s, &Event::Tick));
    let (s, a) = step(&cfg, s, Event::Tick);
    assert_eq!(expect_fetch(&a), ProposalStatus::Deposit);
    let ps = vec![proposal(1, NOW - 10, &[]), proposal(2, NOW - 1000, &[]), proposal(3, NOW - 5, &[])];
    let (s, a) = step(&cfg, s, Event::Proposals(Some(ps)));
    match &a {
        Action::ReadStore { path } => assert_eq!(path, "mantra-1_deposit_id"),
        _ => panic!("expected a store read"),
    }
    let (s, a) = step(&cfg, s, Event::StoredIds(vec![3]));
    assert!(matches!(a, Action::ReadClock));
    assert!(accepts_event(&cfg, &s, &Event::Now(NOW)));
    let (s, a) = step(&cfg, s, Event::Now(NOW));
    match &a {
        Action::SendSlackAlert { status, proposal_ids } => {
            assert_eq!(*status, ProposalStatus::Deposit);
            assert_eq!(proposal_ids, &vec![1]);
        }
        _ => panic!("expected a Slack alert"),
    }
    let (s, a) = step(&cfg, s, Event::AlertSent);
    match &a {
        Action::SendIncidentAlert { status, proposal_ids } => {
            assert_eq!(*status, ProposalStatus::Deposit);
            assert_eq!(proposal_ids, &vec![1]);
        }
        _ => panic!("expected an incident.io alert"),
    }
    let (s, a) = step(&cfg, s, Event::AlertSent);
    match &a {
        Action::WriteStore { path, contents } => {
            assert_eq!(path, "mantra-1_deposit_id");
            assert_eq!(contents, "3,1");
        }
        _ => panic!("expected a store write"),
    }
    let (s, a) = step(&cfg, s, Event::StoreWritten);
    assert_eq!(expect_fetch(&a), ProposalStatus::Voting);
    // a failed query ends the round
    let (s, a) = step(&cfg, s, Event::Proposals(None));
    assert!(matches!(a, Action::AwaitTick));
    assert!(matches!(s, Stage::Idle));
}

#[test]
fn nothing_new_writes_the_store_unchanged() {
    let cfg = tracking(vec![5], true, false);
    let (s, a) = step(&cfg, initial_stage(), Event::Tick);
    assert_eq!(expect_fetch(&a), ProposalStatus::Failed);
    let (s, _) = step(&cfg, s, Event::Proposals(Some(vec![])));
    let (s, _) = step(&cfg, s, Event::StoredIds(vec![8, 9]));
    let (s, a) = step(&cfg, s, Event::Now(NOW));
    match &a {
        Action::WriteStore { path, contents } => {
            assert_eq!(path, "mantra-1_failed_id");
            assert_eq!(contents, "8,9");
        }
        _ => panic!("expected a store write"),
    }
    let (s, a) = step(&cfg, s, Event::StoreWritten);
    assert!(matches!(a, Action::AwaitTick));
    assert!(matches!(s, Stage::Idle));
}

#[test]
fn unwatched_statuses_are_skipped_and_no_target_means_no_alert() {
    let cfg = tracking(vec![3, 9], false, false);
    let (s, a) = step(&cfg, initial_stage(), Event::Tick);
    assert_eq!(expect_fetch(&a), ProposalStatus::Passed);
    let (s, _) = step(&cfg, s, Event::Proposals(Some(vec![proposal(4, NOW - 250, &[])])));
    let (s, _) = step(&cfg, s, Event::StoredIds(vec![]));
    let (_, a) = step(&cfg, s, Event::Now(NOW));
    match &a {
        Action::WriteStore { contents, .. } => assert_eq!(contents, "4"),
        _ => panic!("expected a store write"),
    }
    let cfg = tracking(vec![], false, false);
    let (_, a) = step(&cfg, initial_stage(), Event::Tick);
    assert!(matches!(a, Action::AwaitTick));
}

#[test]
fn events_out_of_turn_are_refused() {
    let cfg = tracking(vec![1], false, false);
    assert!(!accepts_event(&cfg, &initial_stage(), &Event::AlertSent));
    let (s, _) = step(&cfg, initial_stage(), Event::Tick);
    let mut untimed = proposal(1, NOW, &[]);
    untimed.submit_time = None;
    let (s, _) = step(&cfg, s, Event::Proposals(Some(vec![untimed])));
    let (s, _) = step(&cfg, s, Event::StoredIds(vec![]));
    assert!(!accepts_event(&cfg, &s, &Event::Now(NOW)));
    assert!(!accepts_event(&cfg, &s, &Event::Tick));
}

#[test]
fn grpc_address_must_parse() {
    assert!(grpc_uri(&tracking(vec![], false, false)).is_ok());
    let mut bad = tracking(vec![], false, false);
    bad.grpc_addr = "not a uri at all".to_string();
    assert!(grpc_uri(&bad).is_err());
}

#[test]
fn reported_ids_are_not_reported_again() {
    let ps = vec![proposal(1, NOW - 10, &[]), proposal(2, NOW - 20, &[]), proposal(3, NOW - 30, &[])];
    let stored = vec![3];
    let fresh = select_new_proposals(&ps, ProposalStatus::Deposit, NOW, 30, &stored, &None);
    assert_eq!(fresh, vec![1, 2]);
    let mut written = stored.clone();
    written.extend(&fresh);
    let reread = parse_stored_ids(&store_text(&written)).unwrap();
    assert_eq!(reread, written);
    let later = select_new_proposals(&ps, ProposalStatus::Deposit, NOW + 5, 30, &reread, &None);
    assert!(later.is_empty());
}

#[test]
fn tracking_config_takes_the_chain_and_the_targets() {
    let chain = ChainConfig {
        id: "osmosis-1".to_string(),
        grpc_addr: "https://grpc.osmosis.zone/".to_string(),
        refresh: RefreshPeriod { secs: 12, nanos: 500 },
        filter_status: vec![2, 4],
        filter_type: Some(vec!["/cosmos.upgrade.v1beta1.MsgSoftwareUpgrade".to_string()]),
        mainnet: true,
    };
    let config = Config {
        slack: Some(SlackConfig { webhook_url: Some("w".to_string()), channel: "c".to_string(), assignee: "a".to_string() }),
        incident_io: None,
        chains: vec![chain.clone()],
    };
    let t = tracking_config(&config, &chain);
    assert_eq!(t.grpc_addr, "https://grpc.osmosis.zone/");
    assert_eq!(t.chain_id, "osmosis-1");
    assert_eq!(t.refresh, RefreshPeriod { secs: 12, nanos: 500 });
    assert_eq!(t.filter_status, vec![2, 4]);
    assert_eq!(t.filter_type, Some(vec!["/cosmos.upgrade.v1beta1.MsgSoftwareUpgrade".to_string()]));
    assert_eq!(t.slack_config.unwrap().webhook_url.as_deref(), Some("w"));
    assert!(t.incidentio_config.is_none());
    assert!(t.is_mainnet);
}
