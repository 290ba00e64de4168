//! The bootstrap protocol between HYDRA nodes: one request, one reply,
//! each a line of JSON on the wire. Here: what a node answers, and how a
//! reply is checked against the request it answers.
use vstd::prelude::*;
use vstd::string::StringExecFns;

use crate::error::HydraError;
use crate::event::SignedEvent;
use crate::num::{decimal, push_decimal};
use crate::peer::{PeerInfo, PeerList};

verus! {

/// The messages of the protocol.
#[derive(Debug)]
pub enum BootstrapMsg {
    /// Ask for the known peers.
    GetPeers,
    /// The known peers, and the network's stage.
    Peers { peers: Vec<PeerInfo>, stage: u8 },
    /// A node makes itself known.
    Announce { node_id: String, onion_address: String },
    /// Answer to an announcement.
    AnnounceAck { accepted: bool },
    /// Ask for the events after a sequence number.
    SyncRequest { since_sequence: u64 },
    /// The events asked for.
    SyncResponse { events: Vec<SignedEvent> },
    /// Events pushed to a peer.
    SyncPush { events: Vec<SignedEvent> },
    /// How many pushed events arrived.
    SyncPushAck { received_count: usize },
}

/// What a node sends back, borrowing from its own state.
#[derive(Debug)]
pub enum Reply<'a> {
    Peers { peers: &'a Vec<PeerInfo>, stage: u8 },
    AnnounceAck { accepted: bool },
    SyncResponse { events: Vec<&'a SignedEvent> },
    SyncPushAck { received_count: usize },
}

/// The events after `since`, in log order.
pub open spec fn events_after(events: Seq<SignedEvent>, since: u64) -> Seq<SignedEvent> {
    events.filter(|e: SignedEvent| e.sequence > since)
}

/// The answer to `msg`: the peers for `GetPeers`, acceptance of an
/// announcement (the caller checks and records the peer), the events
/// after the requested sequence number, the count of pushed events (the
/// caller merges them). Replies are not answered.
pub fn respond<'a>(msg: &BootstrapMsg, peers: &'a PeerList, events: &'a [SignedEvent], stage: u8) -> (r: Option<Reply<'a>>)
    ensures
        match *msg {
            BootstrapMsg::GetPeers => r == Some(Reply::Peers { peers: &peers.peers, stage }),
            BootstrapMsg::Announce { .. } => r == Some(Reply::AnnounceAck { accepted: true }),
            BootstrapMsg::SyncRequest { since_sequence } => r matches Some(Reply::SyncResponse { events: v })
                && v@.map_values(|e: &SignedEvent| *e) == events_after(events@, since_sequence),
            BootstrapMsg::SyncPush { events: pushed } => r == Some(
                Reply::SyncPushAck { received_count: pushed@.len() as usize },
            ),
            _ => r is None,
        },
{
    match msg {
        BootstrapMsg::GetPeers => Some(Reply::Peers { peers: &peers.peers, stage }),
        BootstrapMsg::Announce { .. } => Some(Reply::AnnounceAck { accepted: true }),
        BootstrapMsg::SyncRequest { since_sequence } => {
            let since = *since_sequence;
            let mut v: Vec<&SignedEvent> = Vec::new();
            let mut i: usize = 0;
            while i < events.len()
                invariant
                    i <= events@.len(),
                    v@.map_values(|e: &SignedEvent| *e) == events_after(events@.take(i as int), since),
                decreases events@.len() - i,
            {
                let ghost v0 = v@;
                if events[i].sequence > since {
                    v.push(&events[i]);
                }
                proof {
                    let t = events@.take(i + 1);
                    assert(t.drop_last() =~= events@.take(i as int));
                    assert(t.last() == events@[i as int]);
                    reveal(Seq::filter);
                    assert(v@.map_values(|e: &SignedEvent| *e) =~= if events@[i as int].sequence > since {
                        v0.map_values(|e: &SignedEvent| *e).push(events@[i as int])
                    } else {
                        v0.map_values(|e: &SignedEvent| *e)
                    });
                }
                i = i + 1;
            }
            assert(events@.take(events@.len() as int) =~= events@);
            Some(Reply::SyncResponse { events: v })
        },
        BootstrapMsg::SyncPush { events: pushed } => Some(
            Reply::SyncPushAck { received_count: pushed.len() },
        ),
        _ => None,
    }
}

/// The position of a message's variant in the declaration.
pub open spec fn variant_index(m: BootstrapMsg) -> nat {
    match m {
        BootstrapMsg::GetPeers => 0,
        BootstrapMsg::Peers { .. } => 1,
        BootstrapMsg::Announce { .. } => 2,
        BootstrapMsg::AnnounceAck { .. } => 3,
        BootstrapMsg::SyncRequest { .. } => 4,
        BootstrapMsg::SyncResponse { .. } => 5,
        BootstrapMsg::SyncPush { .. } => 6,
        BootstrapMsg::SyncPushAck { .. } => 7,
    }
}

fn variant_of(m: &BootstrapMsg) -> (k: u64)
    ensures
        k == variant_index(*m),
{
    match m {
        BootstrapMsg::GetPeers => 0,
        BootstrapMsg::Peers { .. } => 1,
        BootstrapMsg::Announce { .. } => 2,
        BootstrapMsg::AnnounceAck { .. } => 3,
        BootstrapMsg::SyncRequest { .. } => 4,
        BootstrapMsg::SyncResponse { .. } => 5,
        BootstrapMsg::SyncPush { .. } => 6,
        BootstrapMsg::SyncPushAck { .. } => 7,
    }
}

/// The error for a reply of the wrong kind to `request` (named as in the
/// protocol); the reply's kind is shown as its discriminant.
pub open spec fn unexpected_text(request: Seq<char>, reply: BootstrapMsg) -> Seq<char> {
    "unexpected response to "@ + request + ": Discriminant("@ + decimal(variant_index(reply)) + ")"@
}

fn unexpected(request: &str, reply: &BootstrapMsg) -> (e: HydraError)
    ensures
        e matches HydraError::Transport(m) && m@ == unexpected_text(request@, *reply),
{
    let mut m = String::from_str("unexpected response to ");
    m.append(request);
    m.append(": Discriminant(");
    push_decimal(&mut m, variant_of(reply));
    m.append(")");
    HydraError::Transport(m)
}

/// The peers of a reply to `GetPeers`.
pub fn expect_peers(reply: BootstrapMsg) -> (r: Result<Vec<PeerInfo>, HydraError>)
    ensures
        match reply {
            BootstrapMsg::Peers { peers, .. } => r == Ok::<Vec<PeerInfo>, HydraError>(peers),
            _ => r matches Err(HydraError::Transport(m)) && m@ == unexpected_text("GetPeers"@, reply),
        },
{
    match reply {
        BootstrapMsg::Peers { peers, .. } => Ok(peers),
        other => Err(unexpected("GetPeers", &other)),
    }
}

/// Whether a reply to `Announce` accepted the node.
pub fn expect_announce_ack(reply: BootstrapMsg) -> (r: Result<bool, HydraError>)
    ensures
        match reply {
            BootstrapMsg::AnnounceAck { accepted } => r == Ok::<bool, HydraError>(accepted),
            _ => r matches Err(HydraError::Transport(m)) && m@ == unexpected_text("Announce"@, reply),
        },
{
    match reply {
        BootstrapMsg::AnnounceAck { accepted } => Ok(accepted),
        other => Err(unexpected("Announce", &other)),
    }
}

/// The events of a reply to `SyncRequest`.
pub fn expect_sync_response(reply: BootstrapMsg) -> (r: Result<Vec<SignedEvent>, HydraError>)
    ensures
        match reply {
            BootstrapMsg::SyncResponse { events } => r == Ok::<Vec<SignedEvent>, HydraError>(events),
            _ => r matches Err(HydraError::Transport(m)) && m@ == unexpected_text(
                "SyncRequest"@,
                reply,
            ),
        },
{
    match reply {
        BootstrapMsg::SyncResponse { events } => Ok(events),
        other => Err(unexpected("SyncRequest", &other)),
    }
}

/// The count of a reply to `SyncPush`.
pub fn expect_push_ack(reply: BootstrapMsg) -> (r: Result<usize, HydraError>)
    ensures
        match reply {
            BootstrapMsg::SyncPushAck { received_count } => r == Ok::<usize, HydraError>(received_count),
            _ => r matches Err(HydraError::Transport(m)) && m@ == unexpected_text("SyncPush"@, reply),
        },
{
    match reply {
        BootstrapMsg::SyncPushAck { received_count } => Ok(received_count),
        other => Err(unexpected("SyncPush", &other)),
    }
}

} // verus!
