//! Tracking a chain's proposals: which proposals are new in a status, and the
//! polling round as a state machine from stage and event to next stage and
//! action. The program around it waits for ticks, queries the chain, reads and
//! writes the per-status id stores, reads the clock and sends the alerts.
//!
//! A round visits the watched statuses in order. For each it fetches the
//! proposals in that status, reads the store of ids already reported, reads
//! the clock, picks the proposals that entered the status within two polling
//! periods and are not in the store (and carry a wanted message type), alerts
//! Slack and incident.io about them when there are any, and writes the store
//! back with them appended. A failed fetch ends the round.

use vstd::prelude::*;
use crate::config::{ChainConfig, Config, RefreshPeriod};
use crate::id_list::{join_ids, lemma_store_round_trip, store_text, stored_ids};
use crate::incidentio::IncidentIOConfig;
use crate::slack::SlackConfig;
use crate::status::{all_statuses, status_code, store_suffix, ProposalStatus};
use http::Uri;

verus! {

/// What the watcher reads of a proposal: its id, the times (seconds since the
/// epoch) at which it was submitted, entered voting and left voting, and the
/// type URLs of its messages.
#[derive(Clone, Debug)]
pub struct ProposalInfo {
    pub id: u64,
    pub submit_time: Option<i64>,
    pub voting_start_time: Option<i64>,
    pub voting_end_time: Option<i64>,
    pub message_types: Vec<String>,
}

/// The plain content of a proposal.
pub struct ProposalView {
    pub id: u64,
    pub submit_time: Option<i64>,
    pub voting_start_time: Option<i64>,
    pub voting_end_time: Option<i64>,
    pub message_types: Seq<Seq<char>>,
}

/// The plain content of a list of strings.
pub open spec fn strings_view(v: Seq<String>) -> Seq<Seq<char>> {
    v.map_values(|s: String| s@)
}

impl View for ProposalInfo {
    type V = ProposalView;

    open spec fn view(&self) -> ProposalView {
        ProposalView {
            id: self.id,
            submit_time: self.submit_time,
            voting_start_time: self.voting_start_time,
            voting_end_time: self.voting_end_time,
            message_types: strings_view(self.message_types@),
        }
    }
}

/// The plain content of a list of proposals.
pub open spec fn proposals_view(ps: Seq<ProposalInfo>) -> Seq<ProposalView> {
    ps.map_values(|p: ProposalInfo| p@)
}

/// The time at which a proposal entered `status`: its submission for the
/// deposit period, the start of voting for the voting period, the end of
/// voting for the final statuses.
pub open spec fn status_time(p: ProposalView, status: ProposalStatus) -> Option<i64> {
    match status {
        ProposalStatus::Deposit => p.submit_time,
        ProposalStatus::Voting => p.voting_start_time,
        _ => p.voting_end_time,
    }
}

/// The plain content of a message-type filter.
pub open spec fn type_filter_view(f: Option<Vec<String>>) -> Option<Seq<Seq<char>>> {
    match f {
        None => None,
        Some(v) => Some(strings_view(v@)),
    }
}

/// Whether a proposal with messages of `types` passes the filter: always
/// without a filter, else when one of its messages has a listed type.
pub open spec fn type_accepted(filter: Option<Seq<Seq<char>>>, types: Seq<Seq<char>>) -> bool {
    match filter {
        None => true,
        Some(f) => exists|i: int| 0 <= i < types.len() && f.contains(#[trigger] types[i]),
    }
}

/// Whether proposal `p` is new in `status`: it entered the status after
/// `cutoff`, its id is not among the `stored` ids already reported, and it
/// passes the message-type filter.
pub open spec fn is_new_proposal(
    p: ProposalView,
    status: ProposalStatus,
    cutoff: int,
    stored: Seq<u64>,
    filter: Option<Seq<Seq<char>>>,
) -> bool {
    &&& status_time(p, status).unwrap() > cutoff
    &&& !stored.contains(p.id)
    &&& type_accepted(filter, p.message_types)
}

/// The ids of the new proposals among `ps`, in the order of `ps`.
pub open spec fn new_proposal_ids(
    ps: Seq<ProposalView>,
    status: ProposalStatus,
    cutoff: int,
    stored: Seq<u64>,
    filter: Option<Seq<Seq<char>>>,
) -> Seq<u64>
    decreases ps.len(),
{
    if ps.len() == 0 {
        Seq::<u64>::empty()
    } else {
        let prev = new_proposal_ids(ps.drop_last(), status, cutoff, stored, filter);
        if is_new_proposal(ps.last(), status, cutoff, stored, filter) {
            prev.push(ps.last().id)
        } else {
            prev
        }
    }
}

/// Two polling periods, in seconds, as an `i64`: the period's seconds are
/// converted with `as i64` and doubled.
pub open spec fn window(refresh_secs: u64) -> int {
    (refresh_secs as i64) * 2
}

/// The earliest moment a proposal may have entered a status and still count
/// as new: two polling periods before `now`.
pub open spec fn cutoff(now: i64, refresh_secs: u64) -> int {
    now - window(refresh_secs)
}

/// Whether the window and the cutoff can be computed in `i64` without overflow.
pub open spec fn window_fits(now: i64, refresh_secs: u64) -> bool {
    &&& i64::MIN <= window(refresh_secs) <= i64::MAX
    &&& i64::MIN <= cutoff(now, refresh_secs) <= i64::MAX
}

/// Whether every proposal of `ps` carries the time at which it entered `status`.
pub open spec fn all_timed(ps: Seq<ProposalView>, status: ProposalStatus) -> bool {
    forall|i: int| 0 <= i < ps.len() ==> (#[trigger] status_time(ps[i], status)) is Some
}

/// Whether `ids` holds `id`.
fn contains_id(ids: &Vec<u64>, id: u64) -> (b: bool)
    ensures
        b == ids@.contains(id),
{
    let mut i: usize = 0;
    while i < ids.len()
        invariant
            i <= ids.len(),
            forall|j: int| 0 <= j < i ==> ids@[j] != id,
        decreases ids.len() - i,
    {
        if ids[i] == id {
            assert(ids@[i as int] == id);
            return true;
        }
        i = i + 1;
    }
    false
}

/// Whether `v` holds a string equal to `s`.
fn contains_string(v: &Vec<String>, s: &String) -> (b: bool)
    ensures
        b == strings_view(v@).contains(s@),
{
    let mut i: usize = 0;
    while i < v.len()
        invariant
            i <= v.len(),
            forall|j: int| 0 <= j < i ==> v@[j]@ != s@,
        decreases v.len() - i,
    {
        if v[i] == *s {
            assert(strings_view(v@)[i as int] == s@);
            return true;
        }
        i = i + 1;
    }
    assert forall|j: int| 0 <= j < strings_view(v@).len() implies strings_view(v@)[j] != s@ by {
        assert(strings_view(v@)[j] == v@[j]@);
    }
    false
}

/// Whether messages of `types` pass `filter` (see `type_accepted`).
fn type_filter_passes(filter: &Option<Vec<String>>, types: &Vec<String>) -> (b: bool)
    ensures
        b == type_accepted(type_filter_view(*filter), strings_view(types@)),
{
    match filter {
        None => true,
        Some(f) => {
            let ghost tv = strings_view(types@);
            let mut i: usize = 0;
            while i < types.len()
                invariant
                    i <= types.len(),
                    tv == strings_view(types@),
                    type_filter_view(*filter) == Some(strings_view(f@)),
                    forall|j: int| 0 <= j < i ==> !strings_view(f@).contains(#[trigger] tv[j]),
                decreases types.len() - i,
            {
                if contains_string(f, &types[i]) {
                    assert(tv[i as int] == types@[i as int]@);
                    assert(strings_view(f@).contains(tv[i as int]));
                    assert(type_filter_view(*filter) == Some(strings_view(f@)));
                    assert(type_accepted(type_filter_view(*filter), tv));
                    return true;
                }
                assert(tv[i as int] == types@[i as int]@);
                i = i + 1;
            }
            false
        },
    }
}

/// The time at which `p` entered `status` (see `status_time`).
fn status_time_of(p: &ProposalInfo, status: ProposalStatus) -> (t: Option<i64>)
    ensures
        t == status_time(p@, status),
{
    match status {
        ProposalStatus::Deposit => p.submit_time,
        ProposalStatus::Voting => p.voting_start_time,
        _ => p.voting_end_time,
    }
}

/// The ids of the proposals among `proposals` that are new in `status` at time
/// `now`: entered the status less than two periods of `refresh_secs` ago, not
/// among the `stored` ids, and passing the message-type filter.
pub fn select_new_proposals(
    proposals: &Vec<ProposalInfo>,
    status: ProposalStatus,
    now: i64,
    refresh_secs: u64,
    stored: &Vec<u64>,
    filter_type: &Option<Vec<String>>,
) -> (ids: Vec<u64>)
    requires
        all_timed(proposals_view(proposals@), status),
        window_fits(now, refresh_secs),
    ensures
        ids@ == new_proposal_ids(
            proposals_view(proposals@),
            status,
            cutoff(now, refresh_secs),
            stored@,
            type_filter_view(*filter_type),
        ),
{
    let ghost ps = proposals_view(proposals@);
    let ghost c = cutoff(now, refresh_secs);
    let ghost f = type_filter_view(*filter_type);
    let secs = refresh_secs as i64;
    let window = secs * 2;
    let limit = now - window;
    let mut ids: Vec<u64> = Vec::new();
    let mut i: usize = 0;
    while i < proposals.len()
        invariant
            i <= proposals.len(),
            ps == proposals_view(proposals@),
            all_timed(ps, status),
            limit == c,
            c == cutoff(now, refresh_secs),
            f == type_filter_view(*filter_type),
            ids@ == new_proposal_ids(ps.take(i as int), status, c, stored@, f),
        decreases proposals.len() - i,
    {
        let p = &proposals[i];
        assert(ps[i as int] == p@);
        assert(status_time(ps[i as int], status) is Some);
        let t = status_time_of(p, status).unwrap();
        let fresh = t > limit && !contains_id(stored, p.id) && type_filter_passes(
            filter_type,
            &p.message_types,
        );
        proof {
            let tk = ps.take(i + 1);
            assert(tk.drop_last() =~= ps.take(i as int));
            assert(tk.last() == p@);
            assert(p@.message_types == strings_view(p.message_types@));
            assert(fresh == is_new_proposal(p@, status, c, stored@, f));
        }
        if fresh {
            ids.push(p.id);
        }
        i = i + 1;
    }
    assert(ps.take(proposals.len() as int) =~= ps);
    ids
}

/// A new id is the id of a new proposal, and the id of every new proposal is
/// new; in particular no new id is among the stored ones.
pub proof fn lemma_new_ids_exact(
    ps: Seq<ProposalView>,
    status: ProposalStatus,
    cutoff: int,
    stored: Seq<u64>,
    filter: Option<Seq<Seq<char>>>,
)
    ensures
        forall|x: u64| #[trigger]
            new_proposal_ids(ps, status, cutoff, stored, filter).contains(x) <==> exists|i: int|
                0 <= i < ps.len() && ps[i].id == x && is_new_proposal(
                    #[trigger] ps[i],
                    status,
                    cutoff,
                    stored,
                    filter,
                ),
        forall|x: u64| #[trigger]
            new_proposal_ids(ps, status, cutoff, stored, filter).contains(x) ==> !stored.contains(x),
    decreases ps.len(),
{
    let r = new_proposal_ids(ps, status, cutoff, stored, filter);
    if ps.len() > 0 {
        let dl = ps.drop_last();
        lemma_new_ids_exact(dl, status, cutoff, stored, filter);
        let prev = new_proposal_ids(dl, status, cutoff, stored, filter);
        assert forall|x: u64| #[trigger] r.contains(x) <==> exists|i: int|
            0 <= i < ps.len() && ps[i].id == x && is_new_proposal(
                #[trigger] ps[i],
                status,
                cutoff,
                stored,
                filter,
            ) by {
            if r.contains(x) {
                if prev.contains(x) {
                    let i = choose|i: int|
                        0 <= i < dl.len() && dl[i].id == x && is_new_proposal(
                            #[trigger] dl[i],
                            status,
                            cutoff,
                            stored,
                            filter,
                        );
                    assert(ps[i] == dl[i]);
                } else {
                    let k = choose|k: int| 0 <= k < r.len() && r[k] == x;
                    assert(is_new_proposal(ps.last(), status, cutoff, stored, filter));
                    if k < prev.len() {
                        assert(prev[k] == x);
                    }
                    assert(ps[ps.len() - 1] == ps.last());
                }
            }
            if exists|i: int|
                0 <= i < ps.len() && ps[i].id == x && is_new_proposal(
                    #[trigger] ps[i],
                    status,
                    cutoff,
                    stored,
                    filter,
                ) {
                let i = choose|i: int|
                    0 <= i < ps.len() && ps[i].id == x && is_new_proposal(
                        #[trigger] ps[i],
                        status,
                        cutoff,
                        stored,
                        filter,
                    );
                if i < ps.len() - 1 {
                    assert(dl[i] == ps[i]);
                    assert(prev.contains(x));
                    let k = choose|k: int| 0 <= k < prev.len() && prev[k] == x;
                    assert(r[k] == x);
                } else {
                    assert(r[r.len() - 1] == x);
                }
            }
        }
        assert forall|x: u64| #[trigger] r.contains(x) implies !stored.contains(x) by {
            let i = choose|i: int|
                0 <= i < ps.len() && ps[i].id == x && is_new_proposal(
                    #[trigger] ps[i],
                    status,
                    cutoff,
                    stored,
                    filter,
                );
        }
    }
}

/// What tracking one chain needs to know.
#[derive(Clone, Debug)]
pub struct TrackingConfig {
    /// The gRPC endpoint, as URL text.
    pub grpc_addr: String,
    pub chain_id: String,
    pub refresh: RefreshPeriod,
    /// The codes of the statuses to watch.
    pub filter_status: Vec<i32>,
    pub filter_type: Option<Vec<String>>,
    pub slack_config: Option<SlackConfig>,
    pub incidentio_config: Option<IncidentIOConfig>,
    pub is_mainnet: bool,
}

/// Declares `http::Uri` to Verus; its contents stay opaque.
#[verifier::external_type_specification]
#[verifier::external_body]
pub struct ExUri(Uri);

/// Declares `http::uri::InvalidUri` to Verus; its contents stay opaque.
#[verifier::external_type_specification]
#[verifier::external_body]
pub struct ExInvalidUri(http::uri::InvalidUri);

/// The URI that `http` parses from `text`, or `None` when it refuses the text.
pub uninterp spec fn uri_of_text(text: Seq<char>) -> Option<Uri>;

/// Parses `text` as a URI; wraps `<http::Uri as FromStr>::from_str`. Claimed
/// of it: the outcome, refusal or the URI built, depends on the text alone.
/// The URI itself is opaque here.
#[verifier::external_body]
fn parse_uri(text: &str) -> (r: Result<Uri, http::uri::InvalidUri>)
    ensures
        r is Ok <==> uri_of_text(text@) is Some,
        r matches Ok(u) ==> uri_of_text(text@) == Some(u),
{
    text.parse::<Uri>()
}

/// Why tracking a chain could not start.
#[derive(Debug)]
pub enum TrackError {
    /// The gRPC address is not a URI.
    InvalidGrpcAddress,
}

/// The URI of the chain's gRPC endpoint, or an error when its address does not parse.
pub fn grpc_uri(config: &TrackingConfig) -> (r: Result<Uri, TrackError>)
    ensures
        r is Ok <==> uri_of_text(config.grpc_addr@) is Some,
        r matches Ok(u) ==> uri_of_text(config.grpc_addr@) == Some(u),
{
    match parse_uri(config.grpc_addr.as_str()) {
        Ok(u) => Ok(u),
        Err(_) => Err(TrackError::InvalidGrpcAddress),
    }
}

/// Where a round of polling stands; `index` is the position of the status
/// being handled in the polling order.
#[derive(Debug)]
pub enum Stage {
    /// Between rounds: waiting for the next tick.
    Idle,
    /// Waiting for the chain's proposals in the status.
    Fetching { index: usize },
    /// Waiting for the ids stored for the status.
    Reading { index: usize, proposals: Vec<ProposalInfo> },
    /// Waiting for the current time.
    Timing { index: usize, proposals: Vec<ProposalInfo>, stored: Vec<u64> },
    /// Waiting for the Slack alert about the `fresh` ids to be sent.
    SlackAlert { index: usize, stored: Vec<u64>, fresh: Vec<u64> },
    /// Waiting for the incident.io alerts about the `fresh` ids to be sent.
    IncidentAlert { index: usize, stored: Vec<u64>, fresh: Vec<u64> },
    /// Waiting for the status's store to be written.
    Writing { index: usize },
}

/// What the program around the tracker reports back.
#[derive(Debug)]
pub enum Event {
    /// The polling interval has elapsed.
    Tick,
    /// The chain's proposals in the requested status, or `None` when the query failed.
    Proposals(Option<Vec<ProposalInfo>>),
    /// The ids read from the requested store (none when it could not be read).
    StoredIds(Vec<u64>),
    /// The current time, in seconds since the epoch.
    Now(i64),
    /// The requested alert has been handed to its target.
    AlertSent,
    /// The requested store has been written.
    StoreWritten,
}

/// What the tracker asks the program around it to do next.
#[derive(Debug)]
pub enum Action {
    /// Wait for the next tick.
    AwaitTick,
    /// Query the chain for its proposals in `status`.
    FetchProposals { status: ProposalStatus },
    /// Read the ids stored in the file at `path`.
    ReadStore { path: String },
    /// Read the clock.
    ReadClock,
    /// Send the Slack alert about `proposal_ids` in `status`.
    SendSlackAlert { status: ProposalStatus, proposal_ids: Vec<u64> },
    /// Send the incident.io alerts about `proposal_ids` in `status`.
    SendIncidentAlert { status: ProposalStatus, proposal_ids: Vec<u64> },
    /// Write `contents` to the file at `path`.
    WriteStore { path: String, contents: String },
}

/// The plain content of a stage.
pub enum StageView {
    Idle,
    Fetching { index: usize },
    Reading { index: usize, proposals: Seq<ProposalView> },
    Timing { index: usize, proposals: Seq<ProposalView>, stored: Seq<u64> },
    SlackAlert { index: usize, stored: Seq<u64>, fresh: Seq<u64> },
    IncidentAlert { index: usize, stored: Seq<u64>, fresh: Seq<u64> },
    Writing { index: usize },
}

/// The plain content of an event.
pub enum EventView {
    Tick,
    Proposals(Option<Seq<ProposalView>>),
    StoredIds(Seq<u64>),
    Now(i64),
    AlertSent,
    StoreWritten,
}

/// The plain content of an action.
pub enum ActionView {
    AwaitTick,
    FetchProposals { status: ProposalStatus },
    ReadStore { path: Seq<char> },
    ReadClock,
    SendSlackAlert { status: ProposalStatus, proposal_ids: Seq<u64> },
    SendIncidentAlert { status: ProposalStatus, proposal_ids: Seq<u64> },
    WriteStore { path: Seq<char>, contents: Seq<char> },
}

impl View for Stage {
    type V = StageView;

    open spec fn view(&self) -> StageView {
        match self {
            Stage::Idle => StageView::Idle,
            Stage::Fetching { index } => StageView::Fetching { index: *index },
            Stage::Reading { index, proposals } => StageView::Reading {
                index: *index,
                proposals: proposals_view(proposals@),
            },
            Stage::Timing { index, proposals, stored } => StageView::Timing {
                index: *index,
                proposals: proposals_view(proposals@),
                stored: stored@,
            },
            Stage::SlackAlert { index, stored, fresh } => StageView::SlackAlert {
                index: *index,
                stored: stored@,
                fresh: fresh@,
            },
            Stage::IncidentAlert { index, stored, fresh } => StageView::IncidentAlert {
                index: *index,
                stored: stored@,
                fresh: fresh@,
            },
            Stage::Writing { index } => StageView::Writing { index: *index },
        }
    }
}

impl View for Event {
    type V = EventView;

    open spec fn view(&self) -> EventView {
        match self {
            Event::Tick => EventView::Tick,
            Event::Proposals(r) => EventView::Proposals(
                match r {
                    None => None,
                    Some(ps) => Some(proposals_view(ps@)),
                },
            ),
            Event::StoredIds(ids) => EventView::StoredIds(ids@),
            Event::Now(t) => EventView::Now(*t),
            Event::AlertSent => EventView::AlertSent,
            Event::StoreWritten => EventView::StoreWritten,
        }
    }
}

impl View for Action {
    type V = ActionView;

    open spec fn view(&self) -> ActionView {
        match self {
            Action::AwaitTick => ActionView::AwaitTick,
            Action::FetchProposals { status } => ActionView::FetchProposals { status: *status },
            Action::ReadStore { path } => ActionView::ReadStore { path: path@ },
            Action::ReadClock => ActionView::ReadClock,
            Action::SendSlackAlert { status, proposal_ids } => ActionView::SendSlackAlert {
                status: *status,
                proposal_ids: proposal_ids@,
            },
            Action::SendIncidentAlert { status, proposal_ids } => ActionView::SendIncidentAlert {
                status: *status,
                proposal_ids: proposal_ids@,
            },
            Action::WriteStore { path, contents } => ActionView::WriteStore {
                path: path@,
                contents: contents@,
            },
        }
    }
}

/// The status at position `index` of the polling order.
pub open spec fn polled_status(index: int) -> ProposalStatus {
    all_statuses()[index]
}

/// Whether the configuration watches `status`.
pub open spec fn is_watched(filter: Seq<i32>, status: ProposalStatus) -> bool {
    filter.contains(status_code(status))
}

/// The first position at or after `from` whose status is watched, or 5 when none is.
pub open spec fn next_watched(filter: Seq<i32>, from: int) -> int
    decreases 5 - from,
{
    if from >= 5 {
        5
    } else if is_watched(filter, polled_status(from)) {
        from
    } else {
        next_watched(filter, from + 1)
    }
}

/// The file that stores the ids reported for `status` on the chain `chain_id`.
pub open spec fn store_path(chain_id: Seq<char>, status: ProposalStatus) -> Seq<char> {
    chain_id + store_suffix(status)
}

/// Continue the round at the first watched status from position `from` on,
/// or end it when there is none.
pub open spec fn poll_from(config: TrackingConfig, from: int) -> (StageView, ActionView) {
    let j = next_watched(config.filter_status@, from);
    if j >= 5 {
        (StageView::Idle, ActionView::AwaitTick)
    } else {
        (StageView::Fetching { index: j as usize }, ActionView::FetchProposals { status: polled_status(j) })
    }
}

/// Write the status's store: the stored ids followed by the fresh ones.
pub open spec fn write_store(config: TrackingConfig, index: usize, stored: Seq<u64>, fresh: Seq<u64>) -> (StageView, ActionView) {
    (
        StageView::Writing { index },
        ActionView::WriteStore {
            path: store_path(config.chain_id@, polled_status(index as int)),
            contents: join_ids(stored + fresh),
        },
    )
}

/// After Slack: alert incident.io when it is configured, then write the store.
pub open spec fn after_slack(config: TrackingConfig, index: usize, stored: Seq<u64>, fresh: Seq<u64>) -> (StageView, ActionView) {
    if config.incidentio_config is Some {
        (
            StageView::IncidentAlert { index, stored, fresh },
            ActionView::SendIncidentAlert { status: polled_status(index as int), proposal_ids: fresh },
        )
    } else {
        write_store(config, index, stored, fresh)
    }
}

/// Once the fresh ids are known: alert the configured targets when there are
/// any, Slack first, then write the store.
pub open spec fn after_selection(config: TrackingConfig, index: usize, stored: Seq<u64>, fresh: Seq<u64>) -> (StageView, ActionView) {
    if fresh.len() == 0 {
        write_store(config, index, stored, fresh)
    } else if config.slack_config is Some {
        (
            StageView::SlackAlert { index, stored, fresh },
            ActionView::SendSlackAlert { status: polled_status(index as int), proposal_ids: fresh },
        )
    } else {
        after_slack(config, index, stored, fresh)
    }
}

/// Whether the tracker can take `event` in `stage`: the event answers the
/// stage's pending action, a clock reading leaves room to compute the cutoff,
/// and every fetched proposal carries the time at which it entered the status.
pub open spec fn accepts(config: TrackingConfig, stage: StageView, event: EventView) -> bool {
    match stage {
        StageView::Idle => event is Tick,
        StageView::Fetching { index } => index < 5 && event is Proposals,
        StageView::Reading { index, proposals } => index < 5 && event is StoredIds,
        StageView::Timing { index, proposals, stored } => {
            &&& index < 5
            &&& event matches EventView::Now(now)
            &&& window_fits(now, config.refresh.secs)
            &&& all_timed(proposals, polled_status(index as int))
        },
        StageView::SlackAlert { index, stored, fresh } => index < 5 && event is AlertSent,
        StageView::IncidentAlert { index, stored, fresh } => index < 5 && event is AlertSent,
        StageView::Writing { index } => index < 5 && event is StoreWritten,
    }
}

/// The next stage and action when `stage` takes `event`.
pub open spec fn next_step(config: TrackingConfig, stage: StageView, event: EventView) -> (StageView, ActionView) {
    match (stage, event) {
        (StageView::Idle, EventView::Tick) => poll_from(config, 0),
        (StageView::Fetching { index }, EventView::Proposals(None)) => (StageView::Idle, ActionView::AwaitTick),
        (StageView::Fetching { index }, EventView::Proposals(Some(ps))) => (
            StageView::Reading { index, proposals: ps },
            ActionView::ReadStore { path: store_path(config.chain_id@, polled_status(index as int)) },
        ),
        (StageView::Reading { index, proposals }, EventView::StoredIds(ids)) => (
            StageView::Timing { index, proposals, stored: ids },
            ActionView::ReadClock,
        ),
        (StageView::Timing { index, proposals, stored }, EventView::Now(now)) => after_selection(
            config,
            index,
            stored,
            new_proposal_ids(
                proposals,
                polled_status(index as int),
                cutoff(now, config.refresh.secs),
                stored,
                type_filter_view(config.filter_type),
            ),
        ),
        (StageView::SlackAlert { index, stored, fresh }, EventView::AlertSent) => after_slack(config, index, stored, fresh),
        (StageView::IncidentAlert { index, stored, fresh }, EventView::AlertSent) => write_store(config, index, stored, fresh),
        (StageView::Writing { index }, EventView::StoreWritten) => poll_from(config, index + 1),
        _ => (stage, ActionView::AwaitTick),
    }
}

/// The stage a tracker starts in: idle, waiting for the first tick.
pub fn initial_stage() -> (s: Stage)
    ensures
        s@ == StageView::Idle,
{
    Stage::Idle
}

/// The status at position `index < 5` of the polling order.
fn status_at(index: usize) -> (s: ProposalStatus)
    requires
        index < 5,
    ensures
        s == polled_status(index as int),
{
    if index == 0 {
        ProposalStatus::Deposit
    } else if index == 1 {
        ProposalStatus::Voting
    } else if index == 2 {
        ProposalStatus::Passed
    } else if index == 3 {
        ProposalStatus::Rejected
    } else {
        ProposalStatus::Failed
    }
}

/// Whether `v` holds `x`.
fn contains_code(v: &Vec<i32>, x: i32) -> (b: bool)
    ensures
        b == v@.contains(x),
{
    let mut i: usize = 0;
    while i < v.len()
        invariant
            i <= v.len(),
            forall|j: int| 0 <= j < i ==> v@[j] != x,
        decreases v.len() - i,
    {
        if v[i] == x {
            assert(v@[i as int] == x);
            return true;
        }
        i = i + 1;
    }
    false
}

/// The store's file for `status` on the configured chain.
fn make_store_path(config: &TrackingConfig, status: ProposalStatus) -> (p: String)
    ensures
        p@ == store_path(config.chain_id@, status),
{
    let mut p = config.chain_id.clone();
    p.append(status.store_suffix());
    p
}

/// Continues the round at the first watched status from `from` on.
fn exec_poll_from(config: &TrackingConfig, from: usize) -> (r: (Stage, Action))
    requires
        from <= 5,
    ensures
        (r.0@, r.1@) == poll_from(*config, from as int),
{
    let mut j = from;
    while j < 5
        invariant
            from <= j <= 5,
            next_watched(config.filter_status@, from as int) == next_watched(config.filter_status@, j as int),
        decreases 5 - j,
    {
        let s = status_at(j);
        if contains_code(&config.filter_status, s.code()) {
            return (Stage::Fetching { index: j }, Action::FetchProposals { status: s });
        }
        j = j + 1;
    }
    (Stage::Idle, Action::AwaitTick)
}

/// The ids `stored` followed by `fresh`.
fn concat_ids(stored: &Vec<u64>, fresh: &Vec<u64>) -> (v: Vec<u64>)
    ensures
        v@ == stored@ + fresh@,
{
    let mut v: Vec<u64> = Vec::new();
    let mut i: usize = 0;
    while i < stored.len()
        invariant
            i <= stored.len(),
            v@ == stored@.take(i as int),
        decreases stored.len() - i,
    {
        v.push(stored[i]);
        assert(stored@.take(i + 1) =~= stored@.take(i as int).push(stored@[i as int]));
        i = i + 1;
    }
    let mut k: usize = 0;
    while k < fresh.len()
        invariant
            k <= fresh.len(),
            v@ == stored@ + fresh@.take(k as int),
        decreases fresh.len() - k,
    {
        v.push(fresh[k]);
        assert(fresh@.take(k + 1) =~= fresh@.take(k as int).push(fresh@[k as int]));
        assert(stored@ + fresh@.take(k + 1) =~= (stored@ + fresh@.take(k as int)).push(fresh@[k as int]));
        k = k + 1;
    }
    assert(stored@.take(stored.len() as int) =~= stored@);
    assert(fresh@.take(fresh.len() as int) =~= fresh@);
    v
}

/// Writes the status's store (see `write_store`).
fn exec_write_store(config: &TrackingConfig, index: usize, stored: Vec<u64>, fresh: Vec<u64>) -> (r: (Stage, Action))
    requires
        index < 5,
    ensures
        (r.0@, r.1@) == write_store(*config, index, stored@, fresh@),
{
    let all = concat_ids(&stored, &fresh);
    let contents = store_text(&all);
    let path = make_store_path(config, status_at(index));
    (Stage::Writing { index }, Action::WriteStore { path, contents })
}

/// After Slack (see `after_slack`).
fn exec_after_slack(config: &TrackingConfig, index: usize, stored: Vec<u64>, fresh: Vec<u64>) -> (r: (Stage, Action))
    requires
        index < 5,
    ensures
        (r.0@, r.1@) == after_slack(*config, index, stored@, fresh@),
{
    if config.incidentio_config.is_some() {
        let ids = fresh.clone();
        (
            Stage::IncidentAlert { index, stored, fresh },
            Action::SendIncidentAlert { status: status_at(index), proposal_ids: ids },
        )
    } else {
        exec_write_store(config, index, stored, fresh)
    }
}

/// Once the fresh ids are known (see `after_selection`).
fn exec_after_selection(config: &TrackingConfig, index: usize, stored: Vec<u64>, fresh: Vec<u64>) -> (r: (Stage, Action))
    requires
        index < 5,
    ensures
        (r.0@, r.1@) == after_selection(*config, index, stored@, fresh@),
{
    if fresh.len() == 0 {
        exec_write_store(config, index, stored, fresh)
    } else if config.slack_config.is_some() {
        let ids = fresh.clone();
        (
            Stage::SlackAlert { index, stored, fresh },
            Action::SendSlackAlert { status: status_at(index), proposal_ids: ids },
        )
    } else {
        exec_after_slack(config, index, stored, fresh)
    }
}

/// Whether `ps` all carry the time at which they entered `status`.
fn exec_all_timed(ps: &Vec<ProposalInfo>, status: ProposalStatus) -> (b: bool)
    ensures
        b == all_timed(proposals_view(ps@), status),
{
    let ghost pv = proposals_view(ps@);
    let mut i: usize = 0;
    while i < ps.len()
        invariant
            i <= ps.len(),
            pv == proposals_view(ps@),
            forall|j: int| 0 <= j < i ==> (#[trigger] status_time(pv[j], status)) is Some,
        decreases ps.len() - i,
    {
        assert(pv[i as int] == ps@[i as int]@);
        if status_time_of(&ps[i], status).is_none() {
            return false;
        }
        i = i + 1;
    }
    true
}

/// Whether the tracker can take `event` in `stage` (see `accepts`).
pub fn accepts_event(config: &TrackingConfig, stage: &Stage, event: &Event) -> (b: bool)
    ensures
        b == accepts(*config, stage@, event@),
{
    match stage {
        Stage::Idle => matches!(event, Event::Tick),
        Stage::Fetching { index } => *index < 5 && matches!(event, Event::Proposals(_)),
        Stage::Reading { index, .. } => *index < 5 && matches!(event, Event::StoredIds(_)),
        Stage::Timing { index, proposals, .. } => {
            if *index >= 5 {
                return false;
            }
            match event {
                Event::Now(now) => {
                    let secs = config.refresh.secs as i64;
                    match secs.checked_mul(2) {
                        None => false,
                        Some(window) => match now.checked_sub(window) {
                            None => false,
                            Some(_) => exec_all_timed(proposals, status_at(*index)),
                        },
                    }
                },
                _ => false,
            }
        },
        Stage::SlackAlert { index, .. } => *index < 5 && matches!(event, Event::AlertSent),
        Stage::IncidentAlert { index, .. } => *index < 5 && matches!(event, Event::AlertSent),
        Stage::Writing { index } => *index < 5 && matches!(event, Event::StoreWritten),
    }
}

/// Takes `event` in `stage`: returns the next stage and the action to perform
/// (see `next_step`).
pub fn step(config: &TrackingConfig, stage: Stage, event: Event) -> (r: (Stage, Action))
    requires
        accepts(*config, stage@, event@),
    ensures
        (r.0@, r.1@) == next_step(*config, stage@, event@),
{
    match stage {
        Stage::Idle => exec_poll_from(config, 0),
        Stage::Fetching { index } => match event {
            Event::Proposals(None) => (Stage::Idle, Action::AwaitTick),
            Event::Proposals(Some(ps)) => {
                let path = make_store_path(config, status_at(index));
                (Stage::Reading { index, proposals: ps }, Action::ReadStore { path })
            },
            _ => (Stage::Idle, Action::AwaitTick),
        },
        Stage::Reading { index, proposals } => match event {
            Event::StoredIds(ids) => (Stage::Timing { index, proposals, stored: ids }, Action::ReadClock),
            _ => (Stage::Idle, Action::AwaitTick),
        },
        Stage::Timing { index, proposals, stored } => match event {
            Event::Now(now) => {
                let fresh = select_new_proposals(
                    &proposals,
                    status_at(index),
                    now,
                    config.refresh.secs,
                    &stored,
                    &config.filter_type,
                );
                exec_after_selection(config, index, stored, fresh)
            },
            _ => (Stage::Idle, Action::AwaitTick),
        },
        Stage::SlackAlert { index, stored, fresh } => exec_after_slack(config, index, stored, fresh),
        Stage::IncidentAlert { index, stored, fresh } => exec_write_store(config, index, stored, fresh),
        Stage::Writing { index } => exec_poll_from(config, index + 1),
    }
}

/// A round moves forward through the polling order and skips exactly the
/// statuses that are not watched: from position `from`, the next status
/// handled is the first watched one, and none before it is watched.
pub proof fn lemma_next_watched(filter: Seq<i32>, from: int)
    requires
        0 <= from <= 5,
    ensures
        from <= next_watched(filter, from) <= 5,
        next_watched(filter, from) < 5 ==> is_watched(filter, polled_status(next_watched(filter, from))),
        forall|k: int| from <= k < next_watched(filter, from) ==> !is_watched(filter, #[trigger] polled_status(k)),
    decreases 5 - from,
{
    if from < 5 && !is_watched(filter, polled_status(from)) {
        lemma_next_watched(filter, from + 1);
    }
}

/// No duplicate alerts: once a status's store has been written with the ids
/// it held and the ids just found new, reading it back gives exactly those
/// ids, and no later selection for that status reports any of them again,
/// whatever proposals, time or type filter it sees.
pub proof fn lemma_no_repeat_alerts(
    ps: Seq<ProposalView>,
    status: ProposalStatus,
    cutoff: int,
    stored: Seq<u64>,
    filter: Option<Seq<Seq<char>>>,
    later_ps: Seq<ProposalView>,
    later_cutoff: int,
    later_filter: Option<Seq<Seq<char>>>,
)
    ensures
        ({
            let fresh = new_proposal_ids(ps, status, cutoff, stored, filter);
            let written = stored + fresh;
            &&& stored_ids(join_ids(written)) == Some(written)
            &&& forall|x: u64| #[trigger]
                new_proposal_ids(later_ps, status, later_cutoff, written, later_filter).contains(x)
                    ==> !fresh.contains(x) && !stored.contains(x)
        }),
{
    let fresh = new_proposal_ids(ps, status, cutoff, stored, filter);
    let written = stored + fresh;
    lemma_store_round_trip(written);
    lemma_new_ids_exact(later_ps, status, later_cutoff, written, later_filter);
    assert forall|x: u64| #[trigger]
        new_proposal_ids(later_ps, status, later_cutoff, written, later_filter).contains(x)
            implies !fresh.contains(x) && !stored.contains(x) by {
        assert(!written.contains(x));
        if fresh.contains(x) {
            let k = choose|k: int| 0 <= k < fresh.len() && fresh[k] == x;
            assert(written[stored.len() + k] == x);
        }
        if stored.contains(x) {
            let k = choose|k: int| 0 <= k < stored.len() && stored[k] == x;
            assert(written[k] == x);
        }
    }
}

/// Alerts go out only about new proposals: once the time is known, the
/// tracker asks for an alert exactly when some proposal is new and a target is
/// configured, Slack before incident.io, and otherwise writes the store at once.
pub proof fn lemma_alert_only_when_new(
    config: TrackingConfig,
    index: usize,
    stored: Seq<u64>,
    fresh: Seq<u64>,
)
    ensures
        ({
            let a = after_selection(config, index, stored, fresh).1;
            &&& a is SendSlackAlert <==> fresh.len() > 0 && config.slack_config is Some
            &&& a is SendIncidentAlert <==> fresh.len() > 0 && config.slack_config is None
                && config.incidentio_config is Some
            &&& a is WriteStore <==> fresh.len() == 0 || (config.slack_config is None
                && config.incidentio_config is None)
            &&& a matches ActionView::SendSlackAlert { status, proposal_ids } ==> proposal_ids == fresh
            &&& a matches ActionView::SendIncidentAlert { status, proposal_ids } ==> proposal_ids == fresh
        }),
{
}

/// A copy of the strings `v`.
fn copy_strings(v: &Vec<String>) -> (r: Vec<String>)
    ensures
        r@ == v@,
{
    let mut r: Vec<String> = Vec::new();
    let mut i: usize = 0;
    while i < v.len()
        invariant
            i <= v.len(),
            r@ == v@.take(i as int),
        decreases v.len() - i,
    {
        r.push(v[i].clone());
        assert(v@.take(i + 1) =~= v@.take(i as int).push(v@[i as int]));
        i = i + 1;
    }
    assert(v@.take(v.len() as int) =~= v@);
    r
}

/// A copy of the codes `v`.
fn copy_codes(v: &Vec<i32>) -> (r: Vec<i32>)
    ensures
        r@ == v@,
{
    let mut r: Vec<i32> = Vec::new();
    let mut i: usize = 0;
    while i < v.len()
        invariant
            i <= v.len(),
            r@ == v@.take(i as int),
        decreases v.len() - i,
    {
        r.push(v[i]);
        assert(v@.take(i + 1) =~= v@.take(i as int).push(v@[i as int]));
        i = i + 1;
    }
    assert(v@.take(v.len() as int) =~= v@);
    r
}

/// A copy of an optional string.
fn copy_opt_string(o: &Option<String>) -> (r: Option<String>)
    ensures
        r == *o,
{
    match o {
        None => None,
        Some(x) => Some(x.clone()),
    }
}

/// A copy of the Slack target.
fn copy_slack(c: &Option<SlackConfig>) -> (r: Option<SlackConfig>)
    ensures
        r == *c,
{
    match c {
        None => None,
        Some(s) => Some(
            SlackConfig {
                webhook_url: copy_opt_string(&s.webhook_url),
                channel: s.channel.clone(),
                assignee: s.assignee.clone(),
            },
        ),
    }
}

/// A copy of the incident.io target.
fn copy_incident(c: &Option<IncidentIOConfig>) -> (r: Option<IncidentIOConfig>)
    ensures
        r == *c,
{
    match c {
        None => None,
        Some(i) => Some(IncidentIOConfig { url: i.url.clone(), token: copy_opt_string(&i.token) }),
    }
}

/// What tracking `chain` needs: its address, id, period, status and type
/// filters and network kind, with the alert targets of `config`.
pub fn tracking_config(config: &Config, chain: &ChainConfig) -> (t: TrackingConfig)
    ensures
        t.grpc_addr == chain.grpc_addr,
        t.chain_id == chain.id,
        t.refresh == chain.refresh,
        t.filter_status@ == chain.filter_status@,
        type_filter_view(t.filter_type) == type_filter_view(chain.filter_type),
        t.slack_config == config.slack,
        t.incidentio_config == config.incident_io,
        t.is_mainnet == chain.mainnet,
{
    let filter_type = match &chain.filter_type {
        None => None,
        Some(v) => Some(copy_strings(v)),
    };
    TrackingConfig {
        grpc_addr: chain.grpc_addr.clone(),
        chain_id: chain.id.clone(),
        refresh: chain.refresh,
        filter_status: copy_codes(&chain.filter_status),
        filter_type,
        slack_config: copy_slack(&config.slack),
        incidentio_config: copy_incident(&config.incident_io),
        is_mainnet: chain.mainnet,
    }
}

/// The position in the polling order of the status a stage handles, or
/// `None` between rounds.
pub open spec fn stage_index(s: StageView) -> Option<usize> {
    match s {
        StageView::Idle => None,
        StageView::Fetching { index } => Some(index),
        StageView::Reading { index, proposals } => Some(index),
        StageView::Timing { index, proposals, stored } => Some(index),
        StageView::SlackAlert { index, stored, fresh } => Some(index),
        StageView::IncidentAlert { index, stored, fresh } => Some(index),
        StageView::Writing { index } => Some(index),
    }
}

/// How far a round has come: the status's position, and within it the step
/// (fetching, reading the store, reading the clock, alerting Slack, alerting
/// incident.io, writing the store).
pub open spec fn stage_rank(s: StageView) -> int {
    match s {
        StageView::Idle => -1,
        StageView::Fetching { index } => index * 6,
        StageView::Reading { index, proposals } => index * 6 + 1,
        StageView::Timing { index, proposals, stored } => index * 6 + 2,
        StageView::SlackAlert { index, stored, fresh } => index * 6 + 3,
        StageView::IncidentAlert { index, stored, fresh } => index * 6 + 4,
        StageView::Writing { index } => index * 6 + 5,
    }
}

/// Whether a stage away from idle handles a watched status.
pub open spec fn stage_watched(config: TrackingConfig, s: StageView) -> bool {
    match stage_index(s) {
        None => true,
        Some(i) => i < 5 && is_watched(config.filter_status@, polled_status(i as int)),
    }
}

/// Whether action `a` leaves status `status` alone: it queries no proposals
/// in it, sends no alert about it, and reads or writes no store of it.
pub open spec fn leaves_status_alone(config: TrackingConfig, a: ActionView, status: ProposalStatus) -> bool {
    match a {
        ActionView::FetchProposals { status: s } => s != status,
        ActionView::ReadStore { path } => path != store_path(config.chain_id@, status),
        ActionView::SendSlackAlert { status: s, proposal_ids } => s != status,
        ActionView::SendIncidentAlert { status: s, proposal_ids } => s != status,
        ActionView::WriteStore { path, contents } => path != store_path(config.chain_id@, status),
        _ => true,
    }
}

/// Distinct statuses have distinct store files on a chain.
pub proof fn lemma_store_paths_distinct(chain_id: Seq<char>, a: ProposalStatus, b: ProposalStatus)
    requires
        a != b,
    ensures
        store_path(chain_id, a) != store_path(chain_id, b),
{
    reveal_strlit("_deposit_id");
    reveal_strlit("_voting_id");
    reveal_strlit("_passed_id");
    reveal_strlit("_rejected_id");
    reveal_strlit("_failed_id");
    let x = store_suffix(a);
    let y = store_suffix(b);
    assert(x.len() != y.len() || x[1] != y[1]);
    if store_path(chain_id, a) == store_path(chain_id, b) {
        assert((chain_id + x).skip(chain_id.len() as int) =~= x);
        assert((chain_id + y).skip(chain_id.len() as int) =~= y);
    }
}

/// The tracker keeps to the watched statuses: from a stage that handles a
/// watched status (or none), every step it takes leads to such a stage, and
/// its action concerns only the status of the stage it leads to. So a status
/// that is not watched is never queried, alerted about, or has its store read
/// or written.
pub proof fn lemma_step_keeps_to_watched(config: TrackingConfig, stage: StageView, event: EventView)
    requires
        accepts(config, stage, event),
        stage_watched(config, stage),
    ensures
        stage_watched(config, next_step(config, stage, event).0),
        next_step(config, stage, event).0 is Idle ==> next_step(config, stage, event).1 is AwaitTick,
        forall|s: ProposalStatus|
            !is_watched(config.filter_status@, s) ==> leaves_status_alone(
                config,
                #[trigger] next_step(config, stage, event).1,
                s,
            ),
{
    let filter = config.filter_status@;
    let (n, a) = next_step(config, stage, event);
    match (stage, event) {
        (StageView::Idle, EventView::Tick) => {
            lemma_next_watched(filter, 0);
        },
        (StageView::Writing { index }, EventView::StoreWritten) => {
            lemma_next_watched(filter, index + 1);
        },
        _ => {},
    }
    assert forall|s: ProposalStatus| !is_watched(filter, s) implies leaves_status_alone(config, a, s) by {
        if let Some(i) = stage_index(n) {
            assert(polled_status(i as int) != s);
            lemma_store_paths_distinct(config.chain_id@, polled_status(i as int), s);
        }
    }
}

/// Between two ticks a round only moves forward: a step on any event but a
/// tick starts from a stage away from idle and either ends the round or
/// leads to a stage further on.
pub proof fn lemma_step_moves_forward(config: TrackingConfig, stage: StageView, event: EventView)
    requires
        accepts(config, stage, event),
        !(event is Tick),
    ensures
        !(stage is Idle),
        next_step(config, stage, event).0 is Idle || stage_rank(stage) < stage_rank(
            next_step(config, stage, event).0,
        ),
{
    match (stage, event) {
        (StageView::Writing { index }, EventView::StoreWritten) => {
            lemma_next_watched(config.filter_status@, index + 1);
        },
        _ => {},
    }
}

/// Whether `stages` and `events` form a run of the tracker: each stage takes
/// the event at its position and leads to the next stage.
pub open spec fn is_run(config: TrackingConfig, stages: Seq<StageView>, events: Seq<EventView>) -> bool {
    &&& stages.len() == events.len() + 1
    &&& forall|k: int|
        0 <= k < events.len() ==> accepts(config, stages[k], #[trigger] events[k]) && stages[k + 1]
            == next_step(config, stages[k], events[k]).0
}

proof fn lemma_rank_increases(
    config: TrackingConfig,
    stages: Seq<StageView>,
    events: Seq<EventView>,
    j: int,
    k: int,
)
    requires
        is_run(config, stages, events),
        forall|m: int| 0 <= m < events.len() ==> !(#[trigger] events[m] is Tick),
        0 <= j < k < stages.len(),
        !(stages[k] is Idle),
    ensures
        !(stages[j] is Idle),
        stage_rank(stages[j]) < stage_rank(stages[k]),
    decreases k - j,
{
    assert(accepts(config, stages[k - 1], events[k - 1]));
    assert(!(events[k - 1] is Tick));
    lemma_step_moves_forward(config, stages[k - 1], events[k - 1]);
    if j < k - 1 {
        lemma_rank_increases(config, stages, events, j, k - 1);
    }
}

/// Each status is handled at most once per tick, in the polling order: along
/// a run with no tick, every stage but possibly the last is away from idle,
/// the round moves strictly forward, and so the statuses fetched come in
/// increasing position, none twice.
pub proof fn lemma_round_visits_in_order(config: TrackingConfig, stages: Seq<StageView>, events: Seq<EventView>)
    requires
        is_run(config, stages, events),
        forall|m: int| 0 <= m < events.len() ==> !(#[trigger] events[m] is Tick),
    ensures
        forall|j: int| 0 <= j < stages.len() - 1 ==> !(#[trigger] stages[j] is Idle),
        forall|j: int, k: int|
            0 <= j < k < stages.len() && !(stages[k] is Idle) ==> stage_rank(#[trigger] stages[j])
                < stage_rank(#[trigger] stages[k]),
        forall|j: int, k: int|
            0 <= j < k < stages.len() && #[trigger] stages[j] is Fetching && #[trigger] stages[k] is Fetching
                ==> stages[j]->Fetching_index < stages[k]->Fetching_index,
{
    assert forall|j: int| 0 <= j < stages.len() - 1 implies !(#[trigger] stages[j] is Idle) by {
        assert(accepts(config, stages[j], events[j]));
        assert(!(events[j] is Tick));
    }
    assert forall|j: int, k: int|
        0 <= j < k < stages.len() && !(stages[k] is Idle) implies stage_rank(#[trigger] stages[j])
        < stage_rank(#[trigger] stages[k]) by {
        lemma_rank_increases(config, stages, events, j, k);
    }
    assert forall|j: int, k: int|
        0 <= j < k < stages.len() && #[trigger] stages[j] is Fetching && #[trigger] stages[k] is Fetching
        implies stages[j]->Fetching_index < stages[k]->Fetching_index by {
        lemma_rank_increases(config, stages, events, j, k);
    }
}

/// Each status is timed by the moment a proposal entered it: the deposit
/// period by submission, the voting period by the start of voting, and
/// passing, rejection and failure by the end of voting.
pub proof fn lemma_status_time_fields(p: ProposalView)
    ensures
        status_time(p, ProposalStatus::Deposit) == p.submit_time,
        status_time(p, ProposalStatus::Voting) == p.voting_start_time,
        status_time(p, ProposalStatus::Passed) == p.voting_end_time,
        status_time(p, ProposalStatus::Rejected) == p.voting_end_time,
        status_time(p, ProposalStatus::Failed) == p.voting_end_time,
{
}

/// A message-type filter passes a proposal exactly when one of its messages
/// has a type the filter lists; no filter passes every proposal.
pub proof fn lemma_type_filter_fields(filter: Option<Vec<String>>, types: Seq<Seq<char>>)
    ensures
        type_accepted(type_filter_view(filter), types) <==> match filter {
            None => true,
            Some(f) => exists|j: int, k: int|
                0 <= j < types.len() && 0 <= k < f@.len() && #[trigger] f@[k]@ == #[trigger] types[j],
        },
{
    if let Some(f) = filter {
        let fv = strings_view(f@);
        if type_accepted(type_filter_view(filter), types) {
            let j = choose|j: int| 0 <= j < types.len() && fv.contains(#[trigger] types[j]);
            let k = choose|k: int| 0 <= k < fv.len() && fv[k] == types[j];
            assert(f@[k]@ == types[j]);
        }
        if exists|j: int, k: int|
            0 <= j < types.len() && 0 <= k < f@.len() && #[trigger] f@[k]@ == #[trigger] types[j] {
            let (j, k) = choose|j: int, k: int|
                0 <= j < types.len() && 0 <= k < f@.len() && #[trigger] f@[k]@ == #[trigger] types[j];
            assert(fv[k] == types[j]);
            assert(fv.contains(types[j]));
        }
    }
}

/// The round's selection, stated over the proposals' own fields: once the
/// time is known, the tracker works with a list of ids that holds exactly the
/// ids of the proposals that entered the status less than two periods ago,
/// are not among the stored ids, and, when the chain configures a
/// message-type filter, have a message of a listed type. It alerts about
/// exactly those ids, or, when it writes the store at once, the store then
/// reads back as the stored ids followed by them.
pub proof fn lemma_round_selection(
    config: TrackingConfig,
    index: usize,
    proposals: Seq<ProposalView>,
    stored: Seq<u64>,
    now: i64,
) -> (fresh: Seq<u64>)
    requires
        accepts(config, StageView::Timing { index, proposals, stored }, EventView::Now(now)),
    ensures
        forall|x: u64| #[trigger]
            fresh.contains(x) <==> exists|i: int|
                0 <= i < proposals.len() && #[trigger] proposals[i].id == x
                    && status_time(proposals[i], polled_status(index as int)).unwrap() > now
                    - (config.refresh.secs as i64) * 2 && !stored.contains(x) && match config.filter_type {
                    None => true,
                    Some(f) => exists|j: int, k: int|
                        0 <= j < proposals[i].message_types.len() && 0 <= k < f@.len() && #[trigger] f@[k]@
                            == #[trigger] proposals[i].message_types[j],
                },
        match next_step(config, StageView::Timing { index, proposals, stored }, EventView::Now(now)).1 {
            ActionView::SendSlackAlert { status, proposal_ids } => status == polled_status(index as int)
                && proposal_ids == fresh && fresh.len() > 0,
            ActionView::SendIncidentAlert { status, proposal_ids } => status == polled_status(index as int)
                && proposal_ids == fresh && fresh.len() > 0,
            ActionView::WriteStore { path, contents } => path == config.chain_id@ + store_suffix(
                polled_status(index as int),
            ) && stored_ids(contents) == Some(stored + fresh),
            _ => false,
        },
{
    let status = polled_status(index as int);
    let c = cutoff(now, config.refresh.secs);
    let f = type_filter_view(config.filter_type);
    let fresh = new_proposal_ids(proposals, status, c, stored, f);
    lemma_new_ids_exact(proposals, status, c, stored, f);
    lemma_store_round_trip(stored + fresh);
    assert forall|x: u64| #[trigger] fresh.contains(x) <==> exists|i: int|
        0 <= i < proposals.len() && #[trigger] proposals[i].id == x
            && status_time(proposals[i], status).unwrap() > now - (config.refresh.secs as i64) * 2
            && !stored.contains(x) && match config.filter_type {
            None => true,
            Some(f) => exists|j: int, k: int|
                0 <= j < proposals[i].message_types.len() && 0 <= k < f@.len() && #[trigger] f@[k]@
                    == #[trigger] proposals[i].message_types[j],
        } by {
        if fresh.contains(x) {
            let i = choose|i: int|
                0 <= i < proposals.len() && proposals[i].id == x && is_new_proposal(
                    #[trigger] proposals[i],
                    status,
                    c,
                    stored,
                    f,
                );
            lemma_type_filter_fields(config.filter_type, proposals[i].message_types);
        }
        if exists|i: int|
            0 <= i < proposals.len() && #[trigger] proposals[i].id == x
                && status_time(proposals[i], status).unwrap() > now - (config.refresh.secs as i64) * 2
                && !stored.contains(x) && match config.filter_type {
                None => true,
                Some(f) => exists|j: int, k: int|
                    0 <= j < proposals[i].message_types.len() && 0 <= k < f@.len() && #[trigger] f@[k]@
                        == #[trigger] proposals[i].message_types[j],
            } {
            let i = choose|i: int|
                0 <= i < proposals.len() && #[trigger] proposals[i].id == x
                    && status_time(proposals[i], status).unwrap() > now - (config.refresh.secs as i64) * 2
                    && !stored.contains(x) && match config.filter_type {
                    None => true,
                    Some(f) => exists|j: int, k: int|
                        0 <= j < proposals[i].message_types.len() && 0 <= k < f@.len() && #[trigger] f@[k]@
                            == #[trigger] proposals[i].message_types[j],
                };
            lemma_type_filter_fields(config.filter_type, proposals[i].message_types);
            assert(is_new_proposal(proposals[i], status, c, stored, f));
        }
    }
    fresh
}

/// The store keeps every alerted id: after the alerts about the fresh ids,
/// the tracker writes the status's store so that it reads back as the
/// stored ids followed by all the fresh ones, none left out.
pub proof fn lemma_write_records_alerted(
    config: TrackingConfig,
    index: usize,
    stored: Seq<u64>,
    fresh: Seq<u64>,
    after_slack_alert: bool,
)
    requires
        index < 5,
    ensures
        ({
            let stage = if after_slack_alert {
                StageView::SlackAlert { index, stored, fresh }
            } else {
                StageView::IncidentAlert { index, stored, fresh }
            };
            let a = next_step(config, stage, EventView::AlertSent).1;
            &&& (!after_slack_alert || config.incidentio_config is None) ==> a is WriteStore
            &&& a matches ActionView::WriteStore { path, contents } ==> {
                &&& path == config.chain_id@ + store_suffix(polled_status(index as int))
                &&& stored_ids(contents) == Some(stored + fresh)
                &&& forall|x: u64| #[trigger] fresh.contains(x) ==> stored_ids(contents).unwrap().contains(x)
                &&& forall|x: u64| #[trigger] stored.contains(x) ==> stored_ids(contents).unwrap().contains(x)
            }
        }),
{
    let all = stored + fresh;
    lemma_store_round_trip(all);
    assert forall|x: u64| #[trigger] fresh.contains(x) implies all.contains(x) by {
        let k = choose|k: int| 0 <= k < fresh.len() && fresh[k] == x;
        assert(all[stored.len() + k] == x);
    }
    assert forall|x: u64| #[trigger] stored.contains(x) implies all.contains(x) by {
        let k = choose|k: int| 0 <= k < stored.len() && stored[k] == x;
        assert(all[k] == x);
    }
}

} // verus!
