//! Messages between the browser and its HYDRA node.
use vstd::prelude::*;

use vstd::string::StringExecFns;

use crate::alert::{
    diary_alert, entry_alert, last_latest, latest_index, lemma_diary_alert_level,
    lemma_ledger_alert_level, observation_alert, observation_check_ok, try_check_against_diary,
    try_check_observation, AlertLevel, AlertResult,
};
use crate::text::byte_prefix_ok;
use crate::config::HydraConfig;
use crate::crypto::{sha256_hex, sha256_hex_spec};
use crate::error::HydraError;
use crate::event::{
    event_json, lemma_signed_event_verifies, observation_json, sign_event, signed_by, verify_event_spec,
    EventPayload, SignedEvent,
};
use crate::event_log::{chain_tip, lemma_previous_sequence_push, previous_sequence, EventLog};
use crate::ledger::{
    batch_observations, event_observations, ledger_fold, ledger_wf, lemma_small_batches_fit, AnomalyStatus,
    CertificateLedger, DomainView,
};
use crate::node_identity::{NetworkIdentity, NodeIdentity};
use crate::observation::{observation_of, CertObservation, ObservationDiary, RawCertCapture};
use crate::peer::{upserted, without_id, PeerList};
use crate::time::Timestamp;
use vstd::string::StringSliceAdditionalSpecFns;
use vstd::utf8::encode_utf8;

verus! {

/// Commands the browser sends to the node.
#[derive(Debug)]
pub enum HydraCommand {
    Shutdown,
    GetStatus,
    AddPeer { onion_address: String },
    RemovePeer { node_id: String },
    ManualSync,
    ToggleEnabled,
}

/// Notifications the node sends to the browser.
#[derive(Debug, Clone)]
pub enum HydraNotification {
    Started { node_id: String },
    StatusUpdate(HydraStatus),
    Alert(AlertResult),
    ObservationRecorded { domain: String },
    SyncComplete { peer_id: String, events_exchanged: usize },
    Error(String),
}

/// The node's state as the browser shows it.
#[derive(Debug, Clone)]
pub struct HydraStatus {
    pub node_id: String,
    pub enabled: bool,
    pub stage: u8,
    pub observation_count: usize,
    pub event_count: usize,
    pub peer_count: usize,
    pub domain_count: usize,
    pub last_sync: Option<Timestamp>,
    pub alert_count: usize,
    pub network_id: String,
}

// ---------------------------------------------------------------------
// The node's state machine
// ---------------------------------------------------------------------

/// What the node asks the runtime around it to do.
#[derive(Debug)]
pub enum NodeAction {
    /// Append this line to the observation diary's file.
    AppendDiary(String),
    /// Append this line to the event log's file.
    AppendEvent(String),
    /// Tell the browser.
    Notify(HydraNotification),
    SaveLedger,
    SavePeers,
    SaveConfig,
    /// Stop the node.
    Stop,
}

/// A running HYDRA node's state: who it is, its settings, its event log,
/// its diary (and the observations in it), the ledger computed from the
/// log, its peers, the alerts raised, and the sequence number of its next
/// event.
#[derive(Debug)]
pub struct HydraNode {
    pub identity: NodeIdentity,
    pub network_identity: NetworkIdentity,
    pub config: HydraConfig,
    pub event_log: EventLog,
    pub diary: ObservationDiary,
    pub observations: Vec<CertObservation>,
    pub ledger: CertificateLedger,
    pub peers: PeerList,
    pub alerts: Vec<AlertResult>,
    pub sequence: u64,
}

/// The highest sequence number among the events written by `author`.
pub open spec fn own_max(events: Seq<SignedEvent>, author: Seq<char>) -> Option<u64>
    decreases events.len(),
{
    if events.len() == 0 {
        None
    } else {
        let rest = own_max(events.drop_last(), author);
        let e = events.last();
        if e.author@ != author {
            rest
        } else {
            match rest {
                Some(m) => if m >= e.sequence {
                    Some(m)
                } else {
                    Some(e.sequence)
                },
                None => Some(e.sequence),
            }
        }
    }
}

/// The sequence number of a node's next event: one past its highest, or 0
/// when it has written none; `None` when its highest is the last number.
pub open spec fn next_sequence_spec(events: Seq<SignedEvent>, author: Seq<char>) -> Option<u64> {
    match own_max(events, author) {
        None => Some(0),
        Some(m) => if m < u64::MAX {
            Some((m + 1) as u64)
        } else {
            None
        },
    }
}

/// An author's previous sequence number in a log is at most the largest
/// of its sequence numbers there.
proof fn lemma_previous_at_most_max(es: Seq<SignedEvent>, a: Seq<char>)
    ensures
        previous_sequence(es, es.len() as int, a) matches Some(p) ==> own_max(es, a) matches Some(m) && p <= m,
    decreases es.len(),
{
    if es.len() > 0 {
        let d = es.drop_last();
        assert(d.push(es.last()) =~= es);
        lemma_previous_sequence_push(d, es.last(), d.len() as int, a);
        lemma_previous_at_most_max(d, a);
    }
}

pub fn next_sequence(events: &[SignedEvent], author: &str) -> (r: Option<u64>)
    ensures
        r == next_sequence_spec(events@, author@),
{
    let mut best: Option<u64> = None;
    let mut i: usize = 0;
    while i < events.len()
        invariant
            i <= events@.len(),
            best == own_max(events@.take(i as int), author@),
        decreases events@.len() - i,
    {
        proof {
            let t = events@.take(i + 1);
            assert(t.drop_last() =~= events@.take(i as int));
            assert(t.last() == events@[i as int]);
        }
        if crate::strmap::str_eq(events[i].author.as_str(), author) {
            let s = events[i].sequence;
            best = match best {
                Some(m) => if m >= s {
                    Some(m)
                } else {
                    Some(s)
                },
                None => Some(s),
            };
        }
        i = i + 1;
    }
    assert(events@.take(events@.len() as int) =~= events@);
    match best {
        None => Some(0),
        Some(m) => if m < u64::MAX {
            Some(m + 1)
        } else {
            None
        },
    }
}

proof fn lemma_batch_prefix(events: Seq<SignedEvent>, i: int)
    requires
        0 <= i <= events.len(),
    ensures
        batch_observations(events.take(i)).len() <= batch_observations(events).len(),
    decreases events.len() - i,
{
    if i < events.len() {
        lemma_batch_prefix(events, i + 1);
        let t = events.take(i + 1);
        assert(t.drop_last() =~= events.take(i));
    } else {
        assert(events.take(i) =~= events);
    }
}

/// Whether the log carries fewer than 2^31 observations, so that no count
/// of the ledger computed from it can overflow.
fn ledger_fits(events: &[SignedEvent]) -> (b: bool)
    ensures
        b == (batch_observations(events@).len() < 0x8000_0000),
{
    let mut total: usize = 0;
    let mut i: usize = 0;
    while i < events.len()
        invariant
            i <= events@.len(),
            total == batch_observations(events@.take(i as int)).len(),
            total < 0x8000_0000,
        decreases events@.len() - i,
    {
        let n: usize = match &events[i].payload {
            EventPayload::CertObservationBatch { observations } => observations.len(),
            _ => 0,
        };
        proof {
            let t = events@.take(i + 1);
            assert(t.drop_last() =~= events@.take(i as int));
            assert(t.last() == events@[i as int]);
            assert(n == event_observations(events@[i as int]).len());
        }
        if n >= 0x8000_0000 - total {
            proof {
                lemma_batch_prefix(events@, i + 1);
            }
            return false;
        }
        total = total + n;
        i = i + 1;
    }
    assert(events@.take(events@.len() as int) =~= events@);
    true
}

/// The ledger computed from a log, when its observations fit the
/// counters (fewer than 2^31 of them).
pub fn ledger_of(events: &[SignedEvent]) -> (r: Option<CertificateLedger>)
    ensures
        r is Some <==> batch_observations(events@).len() < 0x8000_0000,
        r matches Some(l) ==> l@ == ledger_fold(Map::empty(), batch_observations(events@)),
{
    if ledger_fits(events) {
        proof {
            lemma_small_batches_fit(events@);
        }
        Some(CertificateLedger::compute_from_events(events))
    } else {
        None
    }
}

/// The ledger of a log: recomputed from its observations when they fit
/// the counters, else left as it was.
pub open spec fn recomputed(old: Map<Seq<char>, crate::ledger::DomainView>, events: Seq<SignedEvent>) -> Map<
    Seq<char>,
    crate::ledger::DomainView,
> {
    if batch_observations(events).len() < 0x8000_0000 {
        ledger_fold(Map::empty(), batch_observations(events))
    } else {
        old
    }
}

/// The status the node reports.
pub open spec fn status_of_node(n: HydraNode, s: HydraStatus) -> bool {
    &&& s.node_id@ == n.identity.node_id@
    &&& s.enabled == n.config.enabled
    &&& s.stage == (if n.peers.peers@.len() == 0 {
        0u8
    } else {
        1u8
    })
    &&& s.observation_count == n.observations@.len()
    &&& s.event_count == n.event_log@.len()
    &&& s.peer_count == n.peers.peers@.len()
    &&& s.domain_count == n.ledger@.len()
    &&& s.last_sync is None
    &&& s.alert_count == n.alerts@.len()
    &&& s.network_id@ == n.network_identity.network_id_hex@
}

/// A status update for the node `n`.
pub open spec fn status_notice(a: NodeAction, n: HydraNode) -> bool {
    a matches NodeAction::Notify(HydraNotification::StatusUpdate(s)) && status_of_node(n, s)
}

/// Only the peers changed.
pub open spec fn peers_changed_only(old: HydraNode, new: HydraNode) -> bool {
    &&& new.identity == old.identity
    &&& new.config == old.config
    &&& new.event_log == old.event_log
    &&& new.observations == old.observations
    &&& new.ledger == old.ledger
    &&& new.alerts == old.alerts
    &&& new.sequence == old.sequence
}

/// Two observations agree field by field.
pub open spec fn same_observation(a: CertObservation, b: CertObservation) -> bool {
    &&& a.domain == b.domain
    &&& a.port == b.port
    &&& a.cert_fingerprint == b.cert_fingerprint
    &&& a.chain_fingerprints@ == b.chain_fingerprints@
    &&& a.issuer == b.issuer
    &&& a.subject == b.subject
    &&& a.san@ == b.san@
    &&& a.not_before == b.not_before
    &&& a.not_after == b.not_after
    &&& a.observed_at == b.observed_at
    &&& a.observer_id == b.observer_id
}

fn copy_observation(o: &CertObservation) -> (r: CertObservation)
    ensures
        same_observation(r, *o),
{
    CertObservation {
        domain: o.domain.clone(),
        port: o.port,
        cert_fingerprint: o.cert_fingerprint.clone(),
        chain_fingerprints: crate::tab::copy_strings(&o.chain_fingerprints),
        issuer: o.issuer.clone(),
        subject: o.subject.clone(),
        san: crate::tab::copy_strings(&o.san),
        not_before: o.not_before,
        not_after: o.not_after,
        observed_at: o.observed_at,
        observer_id: o.observer_id.clone(),
    }
}

/// The observations of `domain` in `s`, in order.
pub open spec fn of_domain(s: Seq<CertObservation>, domain: Seq<char>) -> Seq<CertObservation> {
    s.filter(|o: CertObservation| o.domain@ == domain)
}

/// The alert a capture gives for observation `o`: against the ledger once
/// peers are known, else against the diary's history of the domain
/// (`hist`, the observations of that domain kept before `o`); `None` when
/// the check cannot run (a count would overflow, or a fingerprint would be
/// cut inside a character).
pub open spec fn capture_alert(
    a: Option<AlertResult>,
    ledger: Map<Seq<char>, crate::ledger::DomainView>,
    peer_count: nat,
    o: CertObservation,
    hist: Seq<CertObservation>,
) -> bool {
    if peer_count > 0 {
        (a is Some <==> observation_check_ok(ledger, o)) && (a matches Some(x) ==> observation_alert(
            x,
            ledger,
            o,
        ))
    } else {
        &&& (a is None <==> hist.len() > 0 && !byte_prefix_ok(
            hist[latest_index(hist)].cert_fingerprint@,
            16,
        ))
        &&& a matches Some(x) ==> diary_alert(x, o, hist)
    }
}

/// The level of a capture's alert. Once peers are known it comes from
/// the ledger: `Unverified` for an unknown domain, `Verified` for the
/// consensus certificate, `Uncertain` or `TargetedAttack` for an active
/// anomaly's certificate (as more or less than a tenth of the observers
/// report it), `NovelDivergence` for a certificate nobody reported.
/// Without peers it comes from the domain's history: `Unverified` on a
/// first visit, then `Verified` or `NovelDivergence` as the certificate
/// is or is not the latest one seen.
pub proof fn lemma_capture_alert_level(
    a: AlertResult,
    ledger: Map<Seq<char>, DomainView>,
    peer_count: nat,
    o: CertObservation,
    hist: Seq<CertObservation>,
)
    requires
        capture_alert(Some(a), ledger, peer_count, o, hist),
        ledger_wf(ledger),
    ensures
        peer_count > 0 && !ledger.contains_key(o.domain@) ==> a.level is Unverified,
        peer_count > 0 && ledger.contains_key(o.domain@) ==> {
            let e = ledger[o.domain@];
            let fp = o.cert_fingerprint@;
            &&& fp == e.consensus.fingerprint ==> a.level is Verified
            &&& forall|k: int|
                0 <= k < e.anomalies.len() && (#[trigger] e.anomalies[k]).fingerprint == fp
                    && e.anomalies[k].status == AnomalyStatus::Active ==> if 10 * e.anomalies[k].observer_count
                    > e.consensus.unique_observers + e.anomalies[k].observer_count {
                    a.level is Uncertain
                } else {
                    a.level is TargetedAttack
                }
            &&& (fp != e.consensus.fingerprint && forall|k: int|
                0 <= k < e.anomalies.len() ==> !((#[trigger] e.anomalies[k]).fingerprint == fp
                    && e.anomalies[k].status == AnomalyStatus::Active)) ==> a.level is NovelDivergence
        },
        peer_count == 0 && hist.len() == 0 ==> a.level is Unverified,
        peer_count == 0 ==> forall|j: int|
            #[trigger] last_latest(hist, j) ==> if o.cert_fingerprint@ == hist[j].cert_fingerprint@ {
                a.level is Verified
            } else {
                a.level is NovelDivergence
            },
{
    if peer_count > 0 {
        lemma_ledger_alert_level(a, ledger, o);
    } else {
        lemma_diary_alert_level(a, o, hist);
    }
}

/// An alert worth keeping: neither a confirmation nor a lack of data.
pub open spec fn noteworthy(a: AlertResult) -> bool {
    a.level != AlertLevel::Verified && a.level != AlertLevel::Unverified
}

impl HydraNode {
    /// The identity's keys agree, and the next sequence number is above
    /// every sequence number of the node's own events in its log.
    pub open spec fn wf(&self) -> bool {
        &&& self.identity.wf()
        &&& own_max(self.event_log@, self.identity.node_id@) matches Some(m) ==> m < self.sequence
    }

    /// The node's status.
    pub fn build_status(&self) -> (s: HydraStatus)
        ensures
            status_of_node(*self, s),
    {
        let peer_count = self.peers.count();
        HydraStatus {
            node_id: self.identity.node_id.clone(),
            enabled: self.config.enabled,
            stage: if peer_count == 0 {
                0
            } else {
                1
            },
            observation_count: self.observations.len(),
            event_count: self.event_log.len(),
            peer_count,
            domain_count: self.ledger.domain_count(),
            last_sync: None,
            alert_count: self.alerts.len(),
            network_id: self.network_identity.network_id_hex.clone(),
        }
    }

    /// Write the genesis event: the network id and this node's key, with
    /// no onion address yet. Gives the log line to store.
    pub fn create_genesis_event(&mut self) -> (line: String)
        requires
            old(self).wf(),
            old(self).sequence < u64::MAX,
        ensures
            final(self).wf(),
            final(self).sequence == old(self).sequence + 1,
            final(self).event_log@.len() == old(self).event_log@.len() + 1,
            final(self).event_log@.drop_last() == old(self).event_log@,
            ({
                let e = final(self).event_log@.last();
                &&& e.sequence == old(self).sequence
                &&& e.payload matches EventPayload::Genesis { network_id, creator_pubkey, creator_onion }
                    && network_id@ == old(self).network_identity.network_id_hex@
                    && creator_pubkey@ == old(self).identity.node_id@ && creator_onion@.len() == 0
                &&& e.prev_hash@ == chain_tip(old(self).event_log@)
                &&& verify_event_spec(e) is Valid
                &&& previous_sequence(old(self).event_log@, old(self).event_log@.len() as int, e.author@) matches Some(
                    p,
                ) ==> p < e.sequence
                &&& e.author@ == old(self).identity.node_id@
                &&& line@ == event_json(e)
            }),
            final(self).identity == old(self).identity,
            final(self).network_identity == old(self).network_identity,
            final(self).config == old(self).config,
            final(self).observations == old(self).observations,
            final(self).ledger == old(self).ledger,
            final(self).peers == old(self).peers,
            final(self).alerts == old(self).alerts,
    {
        let payload = EventPayload::Genesis {
            network_id: self.network_identity.network_id_hex.clone(),
            creator_pubkey: self.identity.node_id.clone(),
            creator_onion: String::new(),
        };
        let event = sign_event(&self.identity.signing_key, self.sequence, payload, self.event_log.last_hash());
        proof {
            lemma_signed_event_verifies(self.identity.signing_key@, event);
            lemma_previous_at_most_max(self.event_log@, self.identity.node_id@);
        }
        let ghost before = self.event_log@;
        let line = match self.event_log.append(event) {
            Ok(l) => l,
            Err(_) => String::new(),
        };
        proof {
            assert(self.event_log@.drop_last() =~= before);
        }
        self.sequence = self.sequence + 1;
        line
    }

    /// Start a node from what was read from disk: its next sequence number
    /// follows its own events in the log, and a node with an empty log
    /// writes the genesis event. `None` when its own events already used
    /// the last sequence number.
    pub fn start(
        identity: NodeIdentity,
        network_identity: NetworkIdentity,
        config: HydraConfig,
        data_dir: &str,
        events: Vec<SignedEvent>,
        observations: Vec<CertObservation>,
        ledger: CertificateLedger,
        peers: PeerList,
    ) -> (r: Option<(HydraNode, Vec<NodeAction>)>)
        requires
            identity.wf(),
        ensures
            r is Some <==> next_sequence_spec(events@, identity.node_id@) is Some,
            r matches Some((n, acts)) ==> {
                let s0 = next_sequence_spec(events@, identity.node_id@)->0;
                &&& n.wf()
                &&& n.identity == identity
                &&& n.observations == observations
                &&& n.peers == peers
                &&& n.alerts@.len() == 0
                &&& if events@.len() == 0 {
                    &&& n.event_log@.len() == 1
                    &&& n.event_log@[0].payload is Genesis
                    &&& n.sequence == s0 + 1
                    &&& acts@.len() == 2
                    &&& acts@[0] matches NodeAction::AppendEvent(l) && l@ == event_json(n.event_log@[0])
                } else {
                    &&& n.event_log@ == events@
                    &&& n.sequence == s0
                    &&& acts@.len() == 1
                }
                &&& acts@.last() matches NodeAction::Notify(HydraNotification::Started { node_id })
                    && node_id@ == identity.node_id@
            },
    {
        let sequence = match next_sequence(events.as_slice(), identity.node_id.as_str()) {
            Some(s) => s,
            None => return None,
        };
        let empty = events.len() == 0;
        let event_log = EventLog::new(data_dir, events);
        let diary = ObservationDiary::new(data_dir);
        let mut node = HydraNode {
            identity,
            network_identity,
            config,
            event_log,
            diary,
            observations,
            ledger,
            peers,
            alerts: Vec::new(),
            sequence,
        };
        let mut acts: Vec<NodeAction> = Vec::new();
        if empty {
            let line = node.create_genesis_event();
            acts.push(NodeAction::AppendEvent(line));
        }
        acts.push(NodeAction::Notify(HydraNotification::Started { node_id: node.identity.node_id.clone() }));
        Some((node, acts))
    }

    /// Add a peer by its onion address; until its node id is known it is
    /// filed under the SHA-256 of the address.
    pub fn handle_add_peer(&mut self, onion_address: &str) -> (acts: Vec<NodeAction>)
        requires
            old(self).wf(),
        ensures
            final(self).wf(),
            peers_changed_only(*old(self), *final(self)),
            upserted(old(self).peers.peers@, final(self).peers.peers@, sha256_hex_spec(encode_utf8(onion_address@)), onion_address@),
            acts@.len() == 2,
            acts@[0] is SavePeers,
            status_notice(acts@[1], *final(self)),
    {
        let temp_id = sha256_hex(onion_address.as_bytes());
        self.peers.upsert(temp_id.as_str(), onion_address);
        let mut acts: Vec<NodeAction> = Vec::new();
        acts.push(NodeAction::SavePeers);
        acts.push(NodeAction::Notify(HydraNotification::StatusUpdate(self.build_status())));
        acts
    }

    /// React to a command from the browser.
    pub fn handle_command(&mut self, cmd: HydraCommand) -> (acts: Vec<NodeAction>)
        requires
            old(self).wf(),
        ensures
            final(self).wf(),
            match cmd {
                HydraCommand::Shutdown => *final(self) == *old(self) && acts@.len() == 4 && acts@[0] is SaveLedger
                    && acts@[1] is SavePeers && acts@[2] is SaveConfig && acts@[3] is Stop,
                HydraCommand::GetStatus => *final(self) == *old(self) && acts@.len() == 1
                    && status_notice(acts@[0], *old(self)),
                HydraCommand::AddPeer { onion_address } => {
                    &&& peers_changed_only(*old(self), *final(self))
                    &&& upserted(
                        old(self).peers.peers@,
                        final(self).peers.peers@,
                        sha256_hex_spec(encode_utf8(onion_address@)),
                        onion_address@,
                    )
                    &&& acts@.len() == 2 && acts@[0] is SavePeers && status_notice(acts@[1], *final(self))
                },
                HydraCommand::RemovePeer { node_id } => {
                    &&& peers_changed_only(*old(self), *final(self))
                    &&& final(self).peers.peers@ == without_id(old(self).peers.peers@, node_id@)
                    &&& acts@.len() == 2 && acts@[0] is SavePeers && status_notice(acts@[1], *final(self))
                },
                HydraCommand::ManualSync => *final(self) == *old(self) && acts@.len() == 0,
                HydraCommand::ToggleEnabled => {
                    &&& final(self).config.enabled == !old(self).config.enabled
                    &&& *final(self) == (HydraNode { config: final(self).config, ..*old(self) })
                    &&& acts@.len() == 2 && acts@[0] is SaveConfig && status_notice(acts@[1], *final(self))
                },
            },
    {
        let mut acts: Vec<NodeAction> = Vec::new();
        match cmd {
            HydraCommand::Shutdown => {
                acts.push(NodeAction::SaveLedger);
                acts.push(NodeAction::SavePeers);
                acts.push(NodeAction::SaveConfig);
                acts.push(NodeAction::Stop);
            },
            HydraCommand::GetStatus => {
                acts.push(NodeAction::Notify(HydraNotification::StatusUpdate(self.build_status())));
            },
            HydraCommand::AddPeer { onion_address } => {
                acts = self.handle_add_peer(onion_address.as_str());
            },
            HydraCommand::RemovePeer { node_id } => {
                self.peers.remove(node_id.as_str());
                acts.push(NodeAction::SavePeers);
                acts.push(NodeAction::Notify(HydraNotification::StatusUpdate(self.build_status())));
            },
            HydraCommand::ManualSync => {},
            HydraCommand::ToggleEnabled => {
                self.config.enabled = !self.config.enabled;
                acts.push(NodeAction::SaveConfig);
                acts.push(NodeAction::Notify(HydraNotification::StatusUpdate(self.build_status())));
            },
        }
        acts
    }

    /// Keep an observation: the diary gets its line, and the node's list
    /// of observations a copy of it.
    fn keep_observation(&mut self, obs: &CertObservation) -> (line: String)
        requires
            old(self).wf(),
        ensures
            final(self).wf(),
            *final(self) == (HydraNode { observations: final(self).observations, ..*old(self) }),
            ({
                let o = final(self).observations@.last();
                &&& same_observation(o, *obs)
                &&& final(self).observations@ == old(self).observations@.push(o)
                &&& line@ == observation_json(o) + seq!['\n']
            }),
    {
        let line = self.diary.append(obs);
        self.observations.push(copy_observation(obs));
        line
    }

    /// The alert for a new observation, checked before it is kept: against
    /// the ledger once peers are known, else against the observations of
    /// its domain kept so far.
    fn check_capture(&self, obs: &CertObservation) -> (r: Option<AlertResult>)
        ensures
            capture_alert(
                r,
                self.ledger@,
                self.peers.peers@.len(),
                *obs,
                of_domain(self.observations@, obs.domain@),
            ),
    {
        if self.peers.count() > 0 {
            try_check_observation(&self.ledger, obs)
        } else {
            let hist = self.diary.get_for_domain(self.observations.as_slice(), obs.domain.as_str());
            try_check_against_diary(obs, &hist)
        }
    }

    /// Make `obs` a signed event of the log and compute the ledger again:
    /// the actions are the log line, saving the ledger, and telling the
    /// browser of `domain`. Nothing happens once the sequence numbers are
    /// used up.
    fn log_observation(&mut self, obs: CertObservation, domain: String) -> (acts: Vec<NodeAction>)
        requires
            old(self).wf(),
        ensures
            final(self).wf(),
            final(self).identity == old(self).identity,
            final(self).network_identity == old(self).network_identity,
            final(self).config == old(self).config,
            final(self).peers == old(self).peers,
            final(self).observations == old(self).observations,
            final(self).alerts == old(self).alerts,
            if old(self).sequence < u64::MAX {
                let e = final(self).event_log@.last();
                &&& final(self).event_log@ == old(self).event_log@.push(e)
                &&& e.sequence == old(self).sequence
                &&& e.author@ == old(self).identity.node_id@
                &&& e.prev_hash@ == chain_tip(old(self).event_log@)
                &&& verify_event_spec(e) is Valid
                &&& previous_sequence(old(self).event_log@, old(self).event_log@.len() as int, e.author@) matches Some(
                    p,
                ) ==> p < e.sequence
                &&& e.payload matches EventPayload::CertObservationBatch { observations }
                    && observations@ == seq![obs]
                &&& final(self).sequence == old(self).sequence + 1
                &&& final(self).ledger@ == recomputed(old(self).ledger@, final(self).event_log@)
                &&& acts@.len() == 3
                &&& acts@[0] matches NodeAction::AppendEvent(l) && l@ == event_json(e)
                &&& acts@[1] is SaveLedger
                &&& acts@[2] matches NodeAction::Notify(HydraNotification::ObservationRecorded { domain: d })
                    && d == domain
            } else {
                &&& final(self).event_log == old(self).event_log
                &&& final(self).sequence == old(self).sequence
                &&& final(self).ledger == old(self).ledger
                &&& acts@.len() == 0
            },
    {
        let mut acts: Vec<NodeAction> = Vec::new();
        if self.sequence == u64::MAX {
            return acts;
        }
        let mut batch: Vec<CertObservation> = Vec::new();
        batch.push(obs);
        let payload = EventPayload::CertObservationBatch { observations: batch };
        let event = sign_event(&self.identity.signing_key, self.sequence, payload, self.event_log.last_hash());
        proof {
            lemma_signed_event_verifies(self.identity.signing_key@, event);
            lemma_previous_at_most_max(self.event_log@, self.identity.node_id@);
        }
        let ghost before = self.event_log@;
        let line = match self.event_log.append(event) {
            Ok(l) => l,
            Err(_) => String::new(),
        };
        proof {
            assert(self.event_log@.drop_last() =~= before);
        }
        acts.push(NodeAction::AppendEvent(line));
        self.sequence = self.sequence + 1;
        if ledger_fits(self.event_log.events().as_slice()) {
            proof {
                lemma_small_batches_fit(self.event_log@);
            }
            self.ledger = CertificateLedger::compute_from_events(self.event_log.events().as_slice());
        }
        acts.push(NodeAction::SaveLedger);
        acts.push(NodeAction::Notify(HydraNotification::ObservationRecorded { domain }));
        acts
    }

    /// Record a certificate captured while browsing: the observation is
    /// checked against what was known before it (alerts worth keeping are
    /// kept and sent to the browser), goes into the diary, and becomes a
    /// signed event of the log, from which
    /// the ledger is computed again. A capture without certificates is
    /// ignored; so is the event once the sequence numbers are used up.
    pub fn handle_cert_capture(&mut self, raw: &RawCertCapture) -> (acts: Vec<NodeAction>)
        requires
            old(self).wf(),
        ensures
            final(self).wf(),
            final(self).identity == old(self).identity,
            final(self).network_identity == old(self).network_identity,
            final(self).config == old(self).config,
            final(self).peers == old(self).peers,
            raw.certs_der@.len() == 0 ==> *final(self) == *old(self) && acts@.len() == 0,
            raw.certs_der@.len() > 0 ==> {
                let o = final(self).observations@.last();
                let hist = of_domain(old(self).observations@, o.domain@);
                let raised = final(self).alerts@.len() == old(self).alerts@.len() + 1;
                let k: int = if raised {
                    2
                } else {
                    1
                };
                &&& observation_of(o, *raw, old(self).identity.node_id@)
                &&& final(self).observations@ == old(self).observations@.push(o)
                &&& acts@[0] matches NodeAction::AppendDiary(l) && l@ == observation_json(o) + seq!['\n']
                &&& raised || final(self).alerts@ == old(self).alerts@
                &&& raised ==> {
                    let a = final(self).alerts@.last();
                    &&& final(self).alerts@ == old(self).alerts@.push(a)
                    &&& noteworthy(a)
                    &&& (a.level is Uncertain || a.level is TargetedAttack || a.level is NovelDivergence)
                    &&& capture_alert(Some(a), old(self).ledger@, old(self).peers.peers@.len(), o, hist)
                    &&& acts@[1] matches NodeAction::Notify(HydraNotification::Alert(b)) && b == a
                }
                &&& !raised ==> forall|a: Option<AlertResult>|
                    #[trigger] capture_alert(a, old(self).ledger@, old(self).peers.peers@.len(), o, hist)
                        ==> (a matches Some(x) ==> !noteworthy(x))
                &&& !raised ==> forall|a: Option<AlertResult>|
                    #[trigger] capture_alert(a, old(self).ledger@, old(self).peers.peers@.len(), o, hist)
                        ==> (a matches Some(x) ==> x.level is Verified || x.level is Unverified)
                &&& if old(self).sequence < u64::MAX {
                    let e = final(self).event_log@.last();
                    &&& final(self).event_log@ == old(self).event_log@.push(e)
                    &&& e.sequence == old(self).sequence
                    &&& e.author@ == old(self).identity.node_id@
                    &&& e.prev_hash@ == chain_tip(old(self).event_log@)
                    &&& verify_event_spec(e) is Valid
                    &&& previous_sequence(old(self).event_log@, old(self).event_log@.len() as int, e.author@) matches Some(
                        p,
                    ) ==> p < e.sequence
                    &&& e.payload matches EventPayload::CertObservationBatch { observations }
                        && observations@.len() == 1 && same_observation(observations@[0], o)
                    &&& final(self).sequence == old(self).sequence + 1
                    &&& final(self).ledger@ == recomputed(old(self).ledger@, final(self).event_log@)
                    &&& acts@.len() == k + 3
                    &&& acts@[k] matches NodeAction::AppendEvent(l) && l@ == event_json(e)
                    &&& acts@[k + 1] is SaveLedger
                    &&& acts@[k + 2] matches NodeAction::Notify(
                        HydraNotification::ObservationRecorded { domain },
                    ) && domain@ == raw.host@
                } else {
                    &&& final(self).event_log == old(self).event_log
                    &&& final(self).sequence == old(self).sequence
                    &&& final(self).ledger == old(self).ledger
                    &&& acts@.len() == k
                }
            },
    {
        let mut acts: Vec<NodeAction> = Vec::new();
        let obs = match CertObservation::from_raw(raw, self.identity.node_id.as_str()) {
            Ok(o) => o,
            Err(_) => return acts,
        };
        let alert = self.check_capture(&obs);
        let ghost before = *self;
        let line = self.keep_observation(&obs);
        acts.push(NodeAction::AppendDiary(line));
        proof {
            let o = self.observations@.last();
            assert(observation_check_ok(before.ledger@, obs) == observation_check_ok(before.ledger@, o));
            assert(forall|x: AlertResult| #[trigger] observation_alert(x, before.ledger@, obs) == observation_alert(x, before.ledger@, o));
            assert(forall|x: AlertResult, h: Seq<CertObservation>| #[trigger] diary_alert(x, obs, h) == diary_alert(x, o, h));
            assert(capture_alert(alert, before.ledger@, before.peers.peers@.len(), o, of_domain(before.observations@, o.domain@)));
        }
        match alert {
            Some(a) => {
                if a.level != AlertLevel::Verified && a.level != AlertLevel::Unverified {
                    let b = a.clone();
                    self.alerts.push(a);
                    acts.push(NodeAction::Notify(HydraNotification::Alert(b)));
                }
            },
            None => {},
        }
        let ghost acts1 = acts@;
        let domain = obs.domain.clone();
        proof {
            let hist = of_domain(old(self).observations@, self.observations@.last().domain@);
            assert forall|a2: Option<AlertResult>|
                #[trigger] capture_alert(a2, old(self).ledger@, old(self).peers.peers@.len(), self.observations@.last(), hist)
                implies (a2 matches Some(x) ==> (noteworthy(x) <==> (alert matches Some(y) && noteworthy(y)))) by {
                assert(capture_alert(alert, old(self).ledger@, old(self).peers.peers@.len(), self.observations@.last(), hist));
            }
        }
        let mut more = self.log_observation(obs, domain);
        acts.append(&mut more);
        acts
    }

    /// Whether the periodic sync has work: the node is enabled and knows
    /// peers.
    pub fn sync_due(&self) -> (b: bool)
        ensures
            b == (self.config.enabled && self.peers.peers@.len() > 0),
    {
        self.config.enabled && self.peers.count() > 0
    }
}

} // verus!
