//! The Slack alert: the message text, and the webhook payload built from it.

use vstd::prelude::*;
use crate::decimal::{decimal, write_decimal};
use crate::status::{status_name, ProposalStatus};
use slack_hook::{Payload, PayloadBuilder};

verus! {

/// Where and how the Slack alert is posted.
#[derive(Clone, Debug)]
pub struct SlackConfig {
    /// The incoming-webhook URL; the watcher fills it from the environment
    /// when the configuration leaves it out.
    pub webhook_url: Option<String>,
    /// The channel, without its `#`.
    pub channel: String,
    /// Who is mentioned at the end of each alert.
    pub assignee: String,
}

/// The label that tells a mainnet alert from a testnet one.
pub open spec fn network_label(is_mainnet: bool) -> Seq<char> {
    if is_mainnet {
        ":warning: MAINNET"@
    } else {
        ":test_tube: TESTNET"@
    }
}

/// The proposals of an alert: `proposal_id=<id>` for each id, joined by `,`.
pub open spec fn proposal_refs(ids: Seq<u64>) -> Seq<char>
    decreases ids.len(),
{
    if ids.len() == 0 {
        Seq::<char>::empty()
    } else if ids.len() == 1 {
        "proposal_id="@ + decimal(ids[0] as nat)
    } else {
        proposal_refs(ids.drop_last()) + ","@ + "proposal_id="@ + decimal(ids.last() as nat)
    }
}

/// How the proposal list grows: empty for no proposals, `proposal_id=<id>`
/// for one, and each further proposal appends `,proposal_id=<id>`, so every
/// proposal of the list appears, in order, none dropped.
pub proof fn lemma_proposal_refs_grow(ids: Seq<u64>, x: u64)
    ensures
        proposal_refs(Seq::<u64>::empty()) == Seq::<char>::empty(),
        proposal_refs(seq![x]) == "proposal_id="@ + decimal(x as nat),
        ids.len() > 0 ==> proposal_refs(ids.push(x)) == proposal_refs(ids) + ","@ + "proposal_id="@
            + decimal(x as nat),
{
    assert(ids.push(x).drop_last() =~= ids);
    assert(seq![x][0] == x);
}

/// The text of a Slack alert about new proposals `ids` of `chain_id` in `status`.
pub open spec fn slack_text(
    chain_id: Seq<char>,
    ids: Seq<u64>,
    status: ProposalStatus,
    is_mainnet: bool,
    assignee: Seq<char>,
) -> Seq<char> {
    "["@ + chain_id + "] "@ + network_label(is_mainnet) + "\nNew proposal(s) found: "@
        + proposal_refs(ids) + "\nStatus: "@ + status_name(status) + "\n"@ + assignee
}

/// The content of a Slack alert, before it becomes a webhook payload.
#[derive(Clone, Debug)]
pub struct SlackMessage {
    pub text: String,
    pub channel: String,
    pub username: String,
    pub link_names: bool,
    pub icon_emoji: String,
}

/// The `proposal_id=<id>,...` list of an alert.
pub fn format_proposal_refs(ids: &Vec<u64>) -> (s: String)
    ensures
        s@ == proposal_refs(ids@),
{
    let mut s = String::new();
    let mut i: usize = 0;
    while i < ids.len()
        invariant
            i <= ids.len(),
            s@ == proposal_refs(ids@.take(i as int)),
        decreases ids.len() - i,
    {
        let ghost before = s@;
        if i > 0 {
            s.append(",");
        }
        s.append("proposal_id=");
        write_decimal(ids[i], &mut s);
        proof {
            let t = ids@.take(i + 1);
            assert(t.drop_last() =~= ids@.take(i as int));
            assert(t.last() == ids@[i as int]);
            if i == 0 {
                assert(before =~= Seq::<char>::empty());
                assert(s@ =~= "proposal_id="@ + decimal(t[0] as nat));
            } else {
                assert(s@ =~= proposal_refs(t));
            }
        }
        i = i + 1;
    }
    assert(ids@.take(ids.len() as int) =~= ids@);
    s
}

impl SlackConfig {
    /// The alert posted when new proposals `proposal_list` of `chain_id` are
    /// found in `proposal_status`: its text names the chain, the network, the
    /// proposals, the status and the assignee; it goes to `#<channel>` as
    /// "New Proposal Alert" with linked names and a question-mark icon.
    pub fn alert_message(
        &self,
        chain_id: &str,
        proposal_list: &Vec<u64>,
        proposal_status: ProposalStatus,
        is_mainnet: bool,
    ) -> (m: SlackMessage)
        ensures
            m.text@ == slack_text(chain_id@, proposal_list@, proposal_status, is_mainnet, self.assignee@),
            m.channel@ == "#"@ + self.channel@,
            m.username@ == "New Proposal Alert"@,
            m.link_names,
            m.icon_emoji@ == ":black_question_mark:"@,
    {
        let refs = format_proposal_refs(proposal_list);
        let network_type = if is_mainnet {
            ":warning: MAINNET"
        } else {
            ":test_tube: TESTNET"
        };
        let mut text = String::from_str("[");
        text.append(chain_id);
        text.append("] ");
        text.append(network_type);
        text.append("\nNew proposal(s) found: ");
        text.append(refs.as_str());
        text.append("\nStatus: ");
        text.append(proposal_status.name());
        text.append("\n");
        text.append(self.assignee.as_str());
        let mut channel = String::from_str("#");
        channel.append(self.channel.as_str());
        SlackMessage {
            text,
            channel,
            username: String::from_str("New Proposal Alert"),
            link_names: true,
            icon_emoji: String::from_str(":black_question_mark:"),
        }
    }
}

/// Declares `slack_hook::Payload` to Verus; its contents stay opaque.
#[verifier::external_type_specification]
#[verifier::external_body]
pub struct ExPayload(Payload);

/// Declares `slack_hook::Error` to Verus; its contents stay opaque.
#[verifier::external_type_specification]
#[verifier::external_body]
pub struct ExSlackError(slack_hook::Error);

/// The payload that slack_hook's `PayloadBuilder` builds from a text, a
/// channel, a username, the name-linking flag and an icon emoji.
pub uninterp spec fn slack_payload(
    text: Seq<char>,
    channel: Seq<char>,
    username: Seq<char>,
    link_names: bool,
    icon_emoji: Seq<char>,
) -> Payload;

/// Builds a payload with `PayloadBuilder::new`, then `text`, `channel`,
/// `username`, `link_names` and `icon_emoji`, then `build`. Claimed of it:
/// `build` succeeds, as in the crate's source only an invalid icon URL makes it
/// fail and none is set here; and the payload depends on these five values
/// alone (it is named `slack_payload`). Not stated: the payload's fields (the
/// type is opaque; the source stores the values, escaping `&`, `<` and `>` in
/// the text).
#[verifier::external_body]
fn payload_from_parts(
    text: String,
    channel: String,
    username: String,
    link_names: bool,
    icon_emoji: String,
) -> (r: Result<Payload, slack_hook::Error>)
    ensures
        r is Ok,
        r matches Ok(p) ==> p == slack_payload(text@, channel@, username@, link_names, icon_emoji@),
{
    PayloadBuilder::new()
        .text(text)
        .channel(channel)
        .username(username)
        .link_names(link_names)
        .icon_emoji(icon_emoji)
        .build()
}

/// The webhook payload that carries `message`: slack_hook's `PayloadBuilder`
/// given its text, channel, username, name linking and icon.
pub fn build_payload(message: SlackMessage) -> (p: Payload)
    ensures
        p == slack_payload(
            message.text@,
            message.channel@,
            message.username@,
            message.link_names,
            message.icon_emoji@,
        ),
{
    let r = payload_from_parts(
        message.text,
        message.channel,
        message.username,
        message.link_names,
        message.icon_emoji,
    );
    r.unwrap()
}

} // verus!
