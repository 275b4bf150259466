//! The watcher's configuration: the alert targets and the chains to watch.

pub mod default;

use vstd::prelude::*;
use vstd::hash_map::StringHashMap;
use crate::incidentio::IncidentIOConfig;
use crate::slack::SlackConfig;

verus! {

/// How often a chain is polled: whole seconds and the nanoseconds beyond them,
/// as a `Duration` holds it.
#[derive(Clone, Copy, Debug, PartialEq, Eq, Structural)]
pub struct RefreshPeriod {
    pub secs: u64,
    pub nanos: u32,
}

impl RefreshPeriod {
    /// The whole seconds of the period, as `Duration::as_secs` gives them.
    pub fn as_secs(&self) -> (s: u64)
        ensures
            s == self.secs,
    {
        self.secs
    }
}

/// One chain to watch.
#[derive(Clone, Debug)]
pub struct ChainConfig {
    /// The chain's identifier; it also names the chain's id stores.
    pub id: String,
    /// The gRPC endpoint, as the URL text that the configuration gave.
    pub grpc_addr: String,
    /// How often the chain is polled.
    pub refresh: RefreshPeriod,
    /// The codes of the statuses to watch (1 to 5).
    pub filter_status: Vec<i32>,
    /// When given, only proposals with a message of one of these type URLs count.
    pub filter_type: Option<Vec<String>>,
    /// Whether the chain is a mainnet.
    pub mainnet: bool,
}

/// The whole configuration.
#[derive(Clone, Debug)]
pub struct Config {
    pub slack: Option<SlackConfig>,
    pub incident_io: Option<IncidentIOConfig>,
    pub chains: Vec<ChainConfig>,
}

impl Default for Config {
    /// No alert target and no chain.
    fn default() -> (c: Config)
        ensures
            c.slack is None,
            c.incident_io is None,
            c.chains@.len() == 0,
    {
        Config { slack: None, incident_io: None, chains: Vec::new() }
    }
}

/// The chains by id: each id maps to the last chain that carries it.
pub open spec fn chains_by_id(chains: Seq<ChainConfig>) -> Map<Seq<char>, ChainConfig>
    decreases chains.len(),
{
    if chains.len() == 0 {
        Map::empty()
    } else {
        chains_by_id(chains.drop_last()).insert(chains.last().id@, chains.last())
    }
}

impl Config {
    /// The configured chains, keyed by id; where ids repeat, the last chain wins.
    pub fn chains_map(&self) -> (m: StringHashMap<&ChainConfig>)
        ensures
            m@.dom() == chains_by_id(self.chains@).dom(),
            forall|k: Seq<char>| #[trigger] m@.contains_key(k) ==> *m@[k] == chains_by_id(self.chains@)[k],
    {
        let mut m: StringHashMap<&ChainConfig> = StringHashMap::new();
        let mut i: usize = 0;
        while i < self.chains.len()
            invariant
                i <= self.chains.len(),
                m@.dom() == chains_by_id(self.chains@.take(i as int)).dom(),
                forall|k: Seq<char>| #[trigger] m@.contains_key(k) ==> *m@[k] == chains_by_id(self.chains@.take(i as int))[k],
            decreases self.chains.len() - i,
        {
            let c = &self.chains[i];
            m.insert(c.id.clone(), c);
            proof {
                let t = self.chains@.take(i + 1);
                assert(t.drop_last() =~= self.chains@.take(i as int));
                assert(t.last() == self.chains@[i as int]);
                assert(m@.dom() =~= chains_by_id(t).dom());
            }
            i = i + 1;
        }
        assert(self.chains@.take(self.chains.len() as int) =~= self.chains@);
        m
    }

    /// Applies the secrets given by the environment: a Slack target takes
    /// `slack_webhook_url` and an incident.io target takes `incident_io_token`
    /// when these are given, overriding what the configuration file set;
    /// where the environment gives none, the file's value stays. Targets the
    /// file does not configure stay absent, and everything else stays.
    pub fn override_secrets(&mut self, slack_webhook_url: Option<String>, incident_io_token: Option<String>)
        ensures
            final(self).chains == old(self).chains,
            final(self).slack is Some <==> old(self).slack is Some,
            final(self).incident_io is Some <==> old(self).incident_io is Some,
            old(self).slack matches Some(s) ==> {
                let f = final(self).slack.unwrap();
                &&& f.channel == s.channel
                &&& f.assignee == s.assignee
                &&& f.webhook_url == if slack_webhook_url is Some { slack_webhook_url } else { s.webhook_url }
            },
            old(self).incident_io matches Some(c) ==> {
                let f = final(self).incident_io.unwrap();
                &&& f.url == c.url
                &&& f.token == if incident_io_token is Some { incident_io_token } else { c.token }
            },
    {
        match &mut self.slack {
            Some(s) => {
                if slack_webhook_url.is_some() {
                    s.webhook_url = slack_webhook_url;
                }
            },
            None => {},
        }
        match &mut self.incident_io {
            Some(c) => {
                if incident_io_token.is_some() {
                    c.token = incident_io_token;
                }
            },
            None => {},
        }
    }
}

} // verus!
