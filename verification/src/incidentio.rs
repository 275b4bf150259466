//! The incident.io alerts: which alert events go out for new proposals in a
//! status, and what each of them says.
//!
//! For each proposal, in order: entering voting resolves the deposit alert;
//! passing, rejection and failure resolve the voting alert; then an alert for
//! the current status fires; a passed proposal's alert is resolved at once.

use vstd::prelude::*;
use crate::decimal::{decimal, u64_to_decimal};
use crate::status::{status_name, ProposalStatus};

verus! {

/// Where incident.io alerts go.
#[derive(Clone, Debug)]
pub struct IncidentIOConfig {
    /// The alert source endpoint the events are posted to.
    pub url: String,
    /// The bearer token; the watcher fills it from the environment when the
    /// configuration leaves it out, and sends nothing without it.
    pub token: Option<String>,
}

/// One alert event, as posted to incident.io.
#[derive(Clone, Debug)]
pub struct AlertEvent {
    pub title: String,
    pub description: String,
    pub deduplication_key: String,
    /// `firing` or `resolved`.
    pub status: String,
    /// Key and value pairs, in the order the watcher sets them: `team`,
    /// `service`, `mainnet` and `severity`.
    pub metadata: Vec<(String, String)>,
}

/// The plain content of an alert event.
pub struct AlertEventView {
    pub title: Seq<char>,
    pub description: Seq<char>,
    pub deduplication_key: Seq<char>,
    pub status: Seq<char>,
    pub metadata: Seq<(Seq<char>, Seq<char>)>,
}

impl View for AlertEvent {
    type V = AlertEventView;

    open spec fn view(&self) -> AlertEventView {
        AlertEventView {
            title: self.title@,
            description: self.description@,
            deduplication_key: self.deduplication_key@,
            status: self.status@,
            metadata: self.metadata@.map_values(|p: (String, String)| (p.0@, p.1@)),
        }
    }
}

/// `true` or `false`, as a `bool` prints.
pub open spec fn bool_text(b: bool) -> Seq<char> {
    if b {
        "true"@
    } else {
        "false"@
    }
}

/// The metadata of every alert: the team, the service, whether the chain is a
/// mainnet, and a severity that is urgent only for firing alerts about
/// rejected or failed proposals.
pub open spec fn alert_metadata(is_mainnet: bool, urgent: bool) -> Seq<(Seq<char>, Seq<char>)> {
    seq![
        ("team"@, "governance"@),
        ("service"@, "cosmos-proposal-watcher"@),
        ("mainnet"@, bool_text(is_mainnet)),
        ("severity"@, if urgent { "urgent"@ } else { "warning"@ }),
    ]
}

/// The deduplication key of the alert about proposal `id` of `chain_id` in the
/// status named `status`.
pub open spec fn alert_key(chain_id: Seq<char>, id: u64, status: Seq<char>) -> Seq<char> {
    chain_id + "-"@ + decimal(id as nat) + "-"@ + status
}

/// The alert that resolves the previous status's alert, for statuses that
/// follow another one.
pub open spec fn resolve_previous(chain_id: Seq<char>, id: u64, status: ProposalStatus, is_mainnet: bool) -> Seq<AlertEventView> {
    let n = decimal(id as nat);
    match status {
        ProposalStatus::Voting => seq![
            AlertEventView {
                title: "["@ + chain_id + "] Proposal "@ + n + " moved from Deposit to Voting"@,
                description: "Proposal "@ + n + " on chain "@ + chain_id + " has entered voting period"@,
                deduplication_key: alert_key(chain_id, id, "Deposit"@),
                status: "resolved"@,
                metadata: alert_metadata(is_mainnet, false),
            },
        ],
        ProposalStatus::Passed | ProposalStatus::Rejected | ProposalStatus::Failed => seq![
            AlertEventView {
                title: "["@ + chain_id + "] Proposal "@ + n + " voting ended - "@ + status_name(status),
                description: "Proposal "@ + n + " on chain "@ + chain_id
                    + " voting period ended with status: "@ + status_name(status),
                deduplication_key: alert_key(chain_id, id, "Voting"@),
                status: "resolved"@,
                metadata: alert_metadata(is_mainnet, false),
            },
        ],
        ProposalStatus::Deposit => Seq::<AlertEventView>::empty(),
    }
}

/// The description of the alert that fires for a proposal in `status`.
pub open spec fn firing_description(chain_id: Seq<char>, id: u64, status: ProposalStatus) -> Seq<char> {
    let n = decimal(id as nat);
    match status {
        ProposalStatus::Deposit => "New proposal "@ + n + " submitted on chain "@ + chain_id
            + " - currently in deposit period"@,
        ProposalStatus::Voting => "Proposal "@ + n + " on chain "@ + chain_id
            + " has entered voting period - action may be required"@,
        ProposalStatus::Passed => "Proposal "@ + n + " on chain "@ + chain_id
            + " has PASSED - review for implementation"@,
        ProposalStatus::Rejected => "Proposal "@ + n + " on chain "@ + chain_id + " was REJECTED"@,
        ProposalStatus::Failed => "Proposal "@ + n + " on chain "@ + chain_id + " has FAILED"@,
    }
}

/// Whether an alert firing for `status` is urgent: rejection and failure are.
pub open spec fn is_urgent(status: ProposalStatus) -> bool {
    status == ProposalStatus::Rejected || status == ProposalStatus::Failed
}

/// The alert that fires for a proposal in its current status.
pub open spec fn firing_alert(chain_id: Seq<char>, id: u64, status: ProposalStatus, is_mainnet: bool) -> AlertEventView {
    AlertEventView {
        title: "["@ + chain_id + "] Proposal "@ + decimal(id as nat) + " - Status: "@ + status_name(status),
        description: firing_description(chain_id, id, status),
        deduplication_key: alert_key(chain_id, id, status_name(status)),
        status: "firing"@,
        metadata: alert_metadata(is_mainnet, is_urgent(status)),
    }
}

/// The alert that acknowledges a passed proposal, resolving its firing alert.
pub open spec fn acknowledge_passed(chain_id: Seq<char>, id: u64, is_mainnet: bool) -> AlertEventView {
    let n = decimal(id as nat);
    AlertEventView {
        title: "["@ + chain_id + "] Proposal "@ + n + " - Passed (Acknowledged)"@,
        description: "Proposal "@ + n + " on chain "@ + chain_id + " passed status has been acknowledged"@,
        deduplication_key: alert_key(chain_id, id, "Passed"@),
        status: "resolved"@,
        metadata: alert_metadata(is_mainnet, false),
    }
}

/// The alerts for one proposal, in the order they are sent.
pub open spec fn proposal_alerts(chain_id: Seq<char>, id: u64, status: ProposalStatus, is_mainnet: bool) -> Seq<AlertEventView> {
    resolve_previous(chain_id, id, status, is_mainnet).push(firing_alert(chain_id, id, status, is_mainnet))
        + if status == ProposalStatus::Passed {
            seq![acknowledge_passed(chain_id, id, is_mainnet)]
        } else {
            Seq::<AlertEventView>::empty()
        }
}

/// The alerts for proposals `ids`, proposal after proposal.
pub open spec fn incident_alerts(chain_id: Seq<char>, ids: Seq<u64>, status: ProposalStatus, is_mainnet: bool) -> Seq<AlertEventView>
    decreases ids.len(),
{
    if ids.len() == 0 {
        Seq::<AlertEventView>::empty()
    } else {
        incident_alerts(chain_id, ids.drop_last(), status, is_mainnet)
            + proposal_alerts(chain_id, ids.last(), status, is_mainnet)
    }
}

/// The views of a list of events.
pub open spec fn events_view(events: Seq<AlertEvent>) -> Seq<AlertEventView> {
    events.map_values(|e: AlertEvent| e@)
}

/// The metadata of an alert (see `alert_metadata`).
fn make_metadata(is_mainnet: bool, urgent: bool) -> (m: Vec<(String, String)>)
    ensures
        m@.map_values(|p: (String, String)| (p.0@, p.1@)) == alert_metadata(is_mainnet, urgent),
{
    let mut m: Vec<(String, String)> = Vec::new();
    m.push((String::from_str("team"), String::from_str("governance")));
    m.push((String::from_str("service"), String::from_str("cosmos-proposal-watcher")));
    let mainnet = if is_mainnet {
        String::from_str("true")
    } else {
        String::from_str("false")
    };
    m.push((String::from_str("mainnet"), mainnet));
    let severity = if urgent {
        String::from_str("urgent")
    } else {
        String::from_str("warning")
    };
    m.push((String::from_str("severity"), severity));
    assert(m@.map_values(|p: (String, String)| (p.0@, p.1@)) =~= alert_metadata(is_mainnet, urgent));
    m
}

/// The deduplication key `<chain>-<id>-<status>`.
fn make_key(chain_id: &str, id: &str, status: &str) -> (k: String)
    ensures
        k@ == chain_id@ + "-"@ + id@ + "-"@ + status@,
{
    let mut k = String::from_str(chain_id);
    k.append("-");
    k.append(id);
    k.append("-");
    k.append(status);
    k
}

/// `[<chain>] Proposal <id>` followed by `rest`.
fn make_title(chain_id: &str, id: &str, rest: &str) -> (t: String)
    ensures
        t@ == "["@ + chain_id@ + "] Proposal "@ + id@ + rest@,
{
    let mut t = String::from_str("[");
    t.append(chain_id);
    t.append("] Proposal ");
    t.append(id);
    t.append(rest);
    t
}

/// `<lead><id><mid><chain><rest>`.
fn make_sentence(lead: &str, id: &str, mid: &str, chain_id: &str, rest: &str) -> (s: String)
    ensures
        s@ == lead@ + id@ + mid@ + chain_id@ + rest@,
{
    let mut s = String::from_str(lead);
    s.append(id);
    s.append(mid);
    s.append(chain_id);
    s.append(rest);
    s
}

/// Appends the alerts for one proposal to `out`.
fn push_proposal_alerts(
    out: &mut Vec<AlertEvent>,
    chain_id: &str,
    id: u64,
    status: ProposalStatus,
    is_mainnet: bool,
)
    ensures
        events_view(final(out)@) == events_view(old(out)@) + proposal_alerts(chain_id@, id, status, is_mainnet),
{
    let ghost start = events_view(out@);
    let n = u64_to_decimal(id);
    let ns = n.as_str();
    match status {
        ProposalStatus::Voting => {
            out.push(AlertEvent {
                title: make_title(chain_id, ns, " moved from Deposit to Voting"),
                description: make_sentence("Proposal ", ns, " on chain ", chain_id, " has entered voting period"),
                deduplication_key: make_key(chain_id, ns, "Deposit"),
                status: String::from_str("resolved"),
                metadata: make_metadata(is_mainnet, false),
            });
        },
        ProposalStatus::Passed | ProposalStatus::Rejected | ProposalStatus::Failed => {
            let mut title = make_title(chain_id, ns, " voting ended - ");
            title.append(status.name());
            let mut description = make_sentence("Proposal ", ns, " on chain ", chain_id, " voting period ended with status: ");
            description.append(status.name());
            out.push(AlertEvent {
                title,
                description,
                deduplication_key: make_key(chain_id, ns, "Voting"),
                status: String::from_str("resolved"),
                metadata: make_metadata(is_mainnet, false),
            });
        },
        ProposalStatus::Deposit => {},
    }
    let ghost mid = events_view(out@);
    proof {
        assert(mid =~= start + resolve_previous(chain_id@, id, status, is_mainnet));
    }
    let mut title = make_title(chain_id, ns, " - Status: ");
    title.append(status.name());
    let description = match status {
        ProposalStatus::Deposit => make_sentence("New proposal ", ns, " submitted on chain ", chain_id, " - currently in deposit period"),
        ProposalStatus::Voting => make_sentence("Proposal ", ns, " on chain ", chain_id, " has entered voting period - action may be required"),
        ProposalStatus::Passed => make_sentence("Proposal ", ns, " on chain ", chain_id, " has PASSED - review for implementation"),
        ProposalStatus::Rejected => make_sentence("Proposal ", ns, " on chain ", chain_id, " was REJECTED"),
        ProposalStatus::Failed => make_sentence("Proposal ", ns, " on chain ", chain_id, " has FAILED"),
    };
    let urgent = match status {
        ProposalStatus::Rejected | ProposalStatus::Failed => true,
        _ => false,
    };
    out.push(AlertEvent {
        title,
        description,
        deduplication_key: make_key(chain_id, ns, status.name()),
        status: String::from_str("firing"),
        metadata: make_metadata(is_mainnet, urgent),
    });
    proof {
        assert(events_view(out@) =~= mid.push(firing_alert(chain_id@, id, status, is_mainnet)));
    }
    let ghost fired = events_view(out@);
    if status == ProposalStatus::Passed {
        out.push(AlertEvent {
            title: make_title(chain_id, ns, " - Passed (Acknowledged)"),
            description: make_sentence("Proposal ", ns, " on chain ", chain_id, " passed status has been acknowledged"),
            deduplication_key: make_key(chain_id, ns, "Passed"),
            status: String::from_str("resolved"),
            metadata: make_metadata(is_mainnet, false),
        });
        proof {
            assert(events_view(out@) =~= fired.push(acknowledge_passed(chain_id@, id, is_mainnet)));
        }
    }
    proof {
        assert(events_view(out@) =~= start + proposal_alerts(chain_id@, id, status, is_mainnet));
    }
}

/// The alerts for new proposals `proposal_list` of `chain_id` in `proposal_status`.
pub fn alert_events(
    chain_id: &str,
    proposal_list: &Vec<u64>,
    proposal_status: ProposalStatus,
    is_mainnet: bool,
) -> (events: Vec<AlertEvent>)
    ensures
        events_view(events@) == incident_alerts(chain_id@, proposal_list@, proposal_status, is_mainnet),
{
    let mut events: Vec<AlertEvent> = Vec::new();
    let mut i: usize = 0;
    while i < proposal_list.len()
        invariant
            i <= proposal_list.len(),
            events_view(events@) == incident_alerts(chain_id@, proposal_list@.take(i as int), proposal_status, is_mainnet),
        decreases proposal_list.len() - i,
    {
        push_proposal_alerts(&mut events, chain_id, proposal_list[i], proposal_status, is_mainnet);
        proof {
            let t = proposal_list@.take(i + 1);
            assert(t.drop_last() =~= proposal_list@.take(i as int));
        }
        i = i + 1;
    }
    assert(proposal_list@.take(proposal_list.len() as int) =~= proposal_list@);
    events
}

impl IncidentIOConfig {
    /// The alerts to post for new proposals `proposal_list` of `chain_id` in
    /// `proposal_status`, or `None` when no token is configured, in which case
    /// nothing is posted.
    pub fn alerts(
        &self,
        chain_id: &str,
        proposal_list: &Vec<u64>,
        proposal_status: ProposalStatus,
        is_mainnet: bool,
    ) -> (r: Option<Vec<AlertEvent>>)
        ensures
            r is None <==> self.token is None,
            r matches Some(events) ==> events_view(events@) == incident_alerts(
                chain_id@,
                proposal_list@,
                proposal_status,
                is_mainnet,
            ),
    {
        match &self.token {
            None => None,
            Some(_) => Some(alert_events(chain_id, proposal_list, proposal_status, is_mainnet)),
        }
    }

    /// The `Authorization` header value, `Bearer <token>`, or `None` without a token.
    pub fn authorization(&self) -> (r: Option<String>)
        ensures
            r is None <==> self.token is None,
            r matches Some(h) ==> h@ == "Bearer "@ + self.token.unwrap()@,
    {
        match &self.token {
            None => None,
            Some(t) => {
                let mut h = String::from_str("Bearer ");
                h.append(t.as_str());
                Some(h)
            },
        }
    }
}

/// The alert flow resolves what it fired: the alert fired for a proposal in
/// the deposit period is the one resolved when it enters voting; the alert
/// fired for voting is the one resolved when voting ends (passed, rejected or
/// failed); the alert fired for a passed proposal is resolved at once. Firing
/// alerts are urgent exactly for rejected and failed proposals; resolving
/// alerts are never urgent.
pub proof fn lemma_alert_flow(chain_id: Seq<char>, id: u64, is_mainnet: bool, status: ProposalStatus)
    ensures
        resolve_previous(chain_id, id, ProposalStatus::Voting, is_mainnet)[0].deduplication_key
            == firing_alert(chain_id, id, ProposalStatus::Deposit, is_mainnet).deduplication_key,
        status == ProposalStatus::Passed || status == ProposalStatus::Rejected || status
            == ProposalStatus::Failed ==> resolve_previous(chain_id, id, status, is_mainnet)[0].deduplication_key
            == firing_alert(chain_id, id, ProposalStatus::Voting, is_mainnet).deduplication_key,
        acknowledge_passed(chain_id, id, is_mainnet).deduplication_key == firing_alert(
            chain_id,
            id,
            ProposalStatus::Passed,
            is_mainnet,
        ).deduplication_key,
        status != ProposalStatus::Deposit ==> resolve_previous(chain_id, id, status, is_mainnet).len() == 1
            && resolve_previous(chain_id, id, status, is_mainnet)[0].status == "resolved"@
            && resolve_previous(chain_id, id, status, is_mainnet)[0].metadata == alert_metadata(is_mainnet, false),
        status == ProposalStatus::Deposit ==> resolve_previous(chain_id, id, status, is_mainnet).len() == 0,
        firing_alert(chain_id, id, status, is_mainnet).status == "firing"@,
        firing_alert(chain_id, id, status, is_mainnet).metadata == alert_metadata(
            is_mainnet,
            status == ProposalStatus::Rejected || status == ProposalStatus::Failed,
        ),
        acknowledge_passed(chain_id, id, is_mainnet).status == "resolved"@,
{
}

/// The key `<chain>-<id>-<word>` of an alert about proposal `id`.
pub open spec fn key_of(chain_id: Seq<char>, id: u64, word: Seq<char>) -> Seq<char> {
    chain_id + "-"@ + decimal(id as nat) + "-"@ + word
}

/// How many alerts each proposal gets in `status`.
pub open spec fn alerts_per_proposal(status: ProposalStatus) -> int {
    match status {
        ProposalStatus::Deposit => 1,
        ProposalStatus::Passed => 3,
        _ => 2,
    }
}

/// The number of alerts for `ids`, and where each proposal's alerts start.
proof fn lemma_alert_block(chain_id: Seq<char>, ids: Seq<u64>, status: ProposalStatus, is_mainnet: bool, i: int)
    requires
        0 <= i < ids.len(),
    ensures
        incident_alerts(chain_id, ids, status, is_mainnet).len() == alerts_per_proposal(status) * ids.len(),
        forall|r: int|
            0 <= r < alerts_per_proposal(status) ==> incident_alerts(chain_id, ids, status, is_mainnet)[
                alerts_per_proposal(status) * i + r] == #[trigger] proposal_alerts(chain_id, ids[i], status, is_mainnet)[r],
    decreases ids.len(),
{
    let k = alerts_per_proposal(status);
    let dl = ids.drop_last();
    let ev = incident_alerts(chain_id, ids, status, is_mainnet);
    let prev = incident_alerts(chain_id, dl, status, is_mainnet);
    let block = proposal_alerts(chain_id, ids.last(), status, is_mainnet);
    assert(ev == prev + block);
    assert(block.len() == k);
    if i < ids.len() - 1 {
        lemma_alert_block(chain_id, dl, status, is_mainnet, i);
        assert(dl[i] == ids[i]);
        assert(prev.len() == k * dl.len());
        assert forall|r: int| 0 <= r < k implies ev[k * i + r] == #[trigger] proposal_alerts(chain_id, ids[i], status, is_mainnet)[r] by {
            assert(k * i + r < k * dl.len()) by (nonlinear_arith)
                requires 0 <= r < k, 0 <= i < dl.len(), 1 <= k;
            assert(ev[k * i + r] == prev[k * i + r]);
        }
    } else {
        if dl.len() > 0 {
            lemma_alert_block(chain_id, dl, status, is_mainnet, 0);
        } else {
            assert(prev.len() == 0);
        }
        assert(prev.len() == k * dl.len());
        assert(ids[i] == ids.last());
        assert(k * i == k * dl.len());
    }
    assert(ev.len() == k * ids.len()) by {
        if dl.len() > 0 {
            lemma_alert_block(chain_id, dl, status, is_mainnet, 0);
        }
    }
}

/// The layout of the alerts for new proposals `ids`, proposal after proposal:
/// in the deposit period one firing alert each; on entering voting, or when
/// voting ends in rejection or failure, first the resolution of the previous
/// status's alert, then the firing alert of the current status, and nothing
/// else, so a rejection or failure stays firing; when a proposal passes, the
/// resolution of its voting alert, its firing alert, and the resolution of
/// that same alert.
pub proof fn lemma_alert_layout(chain_id: Seq<char>, ids: Seq<u64>, status: ProposalStatus, is_mainnet: bool, i: int)
    requires
        0 <= i < ids.len(),
    ensures
        ({
            let ev = incident_alerts(chain_id, ids, status, is_mainnet);
            let n = ids.len() as int;
            &&& status == ProposalStatus::Deposit ==> {
                &&& ev.len() == n
                &&& ev[i].status == "firing"@
                &&& ev[i].deduplication_key == key_of(chain_id, ids[i], "Deposit"@)
            }
            &&& (status == ProposalStatus::Voting || status == ProposalStatus::Rejected || status
                == ProposalStatus::Failed) ==> {
                &&& ev.len() == 2 * n
                &&& ev[2 * i].status == "resolved"@
                &&& ev[2 * i].deduplication_key == key_of(
                    chain_id,
                    ids[i],
                    if status == ProposalStatus::Voting { "Deposit"@ } else { "Voting"@ },
                )
                &&& ev[2 * i + 1].status == "firing"@
                &&& ev[2 * i + 1].deduplication_key == key_of(chain_id, ids[i], status_name(status))
            }
            &&& status == ProposalStatus::Passed ==> {
                &&& ev.len() == 3 * n
                &&& ev[3 * i].status == "resolved"@
                &&& ev[3 * i].deduplication_key == key_of(chain_id, ids[i], "Voting"@)
                &&& ev[3 * i + 1].status == "firing"@
                &&& ev[3 * i + 1].deduplication_key == key_of(chain_id, ids[i], "Passed"@)
                &&& ev[3 * i + 2].status == "resolved"@
                &&& ev[3 * i + 2].deduplication_key == key_of(chain_id, ids[i], "Passed"@)
            }
        }),
{
    lemma_alert_block(chain_id, ids, status, is_mainnet, i);
    let b = proposal_alerts(chain_id, ids[i], status, is_mainnet);
    let k = alerts_per_proposal(status);
    let id = ids[i];
    let f = firing_alert(chain_id, id, status, is_mainnet);
    let r = resolve_previous(chain_id, id, status, is_mainnet);
    if status == ProposalStatus::Deposit {
        assert(b =~= seq![f]);
        assert(b[0] == f);
        assert(1 * i + 0 == i);
    } else if status == ProposalStatus::Passed {
        assert(b =~= seq![r[0], f, acknowledge_passed(chain_id, id, is_mainnet)]);
        assert(b[0] == r[0]);
        assert(b[1] == f);
        assert(b[2] == acknowledge_passed(chain_id, id, is_mainnet));
    } else {
        assert(b =~= seq![r[0], f]);
        assert(b[0] == r[0]);
        assert(b[1] == f);
    }
}

} // verus!
