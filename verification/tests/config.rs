use cosmos_proposal_watcher::config::default::{filter_status, refresh};
use cosmos_proposal_watcher::config::{ChainConfig, Config};
use cosmos_proposal_watcher::incidentio::IncidentIOConfig;
use cosmos_proposal_watcher::slack::SlackConfig;
use cosmos_proposal_watcher::DEFAULT_CONFIG_PATH;

fn chain(id: &str, mainnet: bool) -> ChainConfig {
    ChainConfig {
        id: id.to_string(),
        grpc_addr: "https://grpc.example.org".to_string(),
        refresh: refresh(),
        filter_status: filter_status(),
        filter_type: None,
        mainnet,
    }
}

#[test]
fn defaults() {
    let r = refresh();
    assert_eq!(r.as_secs(), 30);
    assert_eq!(r.nanos, 0);
    assert_eq!(filter_status(), vec![1, 2, 3, 4, 5]);
    let c = Config::default();
    assert!(c.slack.is_none());
    assert!(c.incident_io.is_none());
    assert!(c.chains.is_empty());
    assert_eq!(DEFAULT_CONFIG_PATH, "chains.toml");
}

#[test]
fn chains_map_keeps_last_of_each_id() {
    let c = Config { slack: None, incident_io: None, chains: vec![chain("a", false), chain("b", false), chain("a", true)] };
    let m = c.chains_map();
    assert_eq!(m.len(), 2);
    assert!(m.get("a").unwrap().mainnet);
    assert!(!m.get("b").unwrap().mainnet);
    assert!(m.get("z").is_none());
}

#[test]
fn environment_secrets_override_the_file() {
    let mut c = Config {
        slack: Some(SlackConfig { webhook_url: Some("from-file".to_string()), channel: "x".to_string(), assignee: "y".to_string() }),
        incident_io: Some(IncidentIOConfig { url: "u".to_string(), token: Some("file-token".to_string()) }),
        chains: vec![],
    };
    c.override_secrets(Some("hook".to_string()), None);
    assert_eq!(c.slack.as_ref().unwrap().webhook_url.as_deref(), Some("hook"));
    assert_eq!(c.slack.as_ref().unwrap().channel, "x");
    assert_eq!(c.incident_io.as_ref().unwrap().token.as_deref(), Some("file-token"));
    c.override_secrets(None, Some("env-token".to_string()));
    assert_eq!(c.slack.as_ref().unwrap().webhook_url.as_deref(), Some("hook"));
    assert_eq!(c.incident_io.as_ref().unwrap().token.as_deref(), Some("env-token"));
    let mut missing = Config {
        slack: Some(SlackConfig { webhook_url: None, channel: "x".to_string(), assignee: "y".to_string() }),
        incident_io: Some(IncidentIOConfig { url: "u".to_string(), token: None }),
        chains: vec![],
    };
    missing.override_secrets(Some("hook".to_string()), Some("t".to_string()));
    assert_eq!(missing.slack.as_ref().unwrap().webhook_url.as_deref(), Some("hook"));
    assert_eq!(missing.incident_io.as_ref().unwrap().token.as_deref(), Some("t"));
    let mut d = Config::default();
    d.override_secrets(Some("hook".to_string()), None);
    assert!(d.slack.is_none());
}
