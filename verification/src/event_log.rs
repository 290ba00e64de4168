//! The append-only log of signed events, linked into a hash chain: each
//! event names the hash of the event before it.
use vstd::prelude::*;
use vstd::string::StringExecFns;

use crate::error::{hydra_error_text, HydraError};
use crate::event::{
    event_hash, event_hash_spec, event_json, event_to_json, genesis_hash_spec, genesis_prev_hash,
    outcome_matches, verify_event, verify_event_spec, SignedEvent, VerifyOutcome,
};
use crate::num::{decimal, push_decimal};
use crate::paths::{join_path, path_join};
use crate::strmap::str_eq;

verus! {

/// The hash the next event must name: that of the last event, or the zero
/// hash when there is none.
pub open spec fn chain_tip(es: Seq<SignedEvent>) -> Seq<char> {
    if es.len() == 0 {
        genesis_hash_spec()
    } else {
        event_hash_spec(es.last())
    }
}

/// How a chain check ends.
pub enum ChainOutcome {
    Intact,
    /// Event `i` fails its signature check, with the error's message.
    BadEvent(int, Seq<char>),
    /// Event `i` names `got` where the chain expects `expected`.
    Broken(int, Seq<char>, Seq<char>),
    /// Event `i` has sequence number `got`, though its author's previous
    /// event already had `previous`.
    OutOfOrder(int, u64, u64),
}

/// The sequence number of the latest event before position `i` whose
/// author is `author`, if there is one.
pub open spec fn previous_sequence(es: Seq<SignedEvent>, i: int, author: Seq<char>) -> Option<u64>
    decreases i,
{
    if i <= 0 || i > es.len() {
        None
    } else if es[i - 1].author@ == author {
        Some(es[i - 1].sequence)
    } else {
        previous_sequence(es, i - 1, author)
    }
}

/// The message of a failed signature check.
pub open spec fn outcome_text(o: VerifyOutcome) -> Seq<char> {
    match o {
        VerifyOutcome::Crypto(m) => "crypto error: "@ + m,
        _ => "invalid event signature"@,
    }
}

/// Check the chain from event `i` on, where event `i` must name
/// `expected`: each event's signature, its link, and that its sequence
/// number is above that of its author's previous event.
pub open spec fn chain_from(es: Seq<SignedEvent>, i: int, expected: Seq<char>) -> ChainOutcome
    decreases es.len() - i,
{
    if i < 0 || i >= es.len() {
        ChainOutcome::Intact
    } else {
        let o = verify_event_spec(es[i]);
        if !(o is Valid) {
            ChainOutcome::BadEvent(i, outcome_text(o))
        } else if es[i].prev_hash@ != expected {
            ChainOutcome::Broken(i, expected, es[i].prev_hash@)
        } else if previous_sequence(es, i, es[i].author@) matches Some(p) && p >= es[i].sequence {
            ChainOutcome::OutOfOrder(i, previous_sequence(es, i, es[i].author@)->0, es[i].sequence)
        } else {
            chain_from(es, i + 1, event_hash_spec(es[i]))
        }
    }
}

/// The hash expected after checking events `i..` starting from `expected`.
pub open spec fn tip_from(es: Seq<SignedEvent>, i: int, expected: Seq<char>) -> Seq<char>
    decreases es.len() - i,
{
    if i < 0 || i >= es.len() {
        expected
    } else {
        tip_from(es, i + 1, event_hash_spec(es[i]))
    }
}

/// The hash event `k` of `es` must name: that of the event before it, or
/// the zero hash for the first.
pub open spec fn link_before(es: Seq<SignedEvent>, k: int) -> Seq<char> {
    if k == 0 {
        genesis_hash_spec()
    } else {
        event_hash_spec(es[k - 1])
    }
}

/// A sound log: every event's signature is valid, every event names the
/// hash of the one before it (the first, the zero hash), and every event's
/// sequence number is above those of all earlier events of its author.
pub open spec fn log_sound(es: Seq<SignedEvent>) -> bool {
    forall|k: int|
        0 <= k < es.len() ==> {
            &&& verify_event_spec(#[trigger] es[k]) is Valid
            &&& es[k].prev_hash@ == link_before(es, k)
            &&& forall|q: int|
                0 <= q < k && (#[trigger] es[q]).author@ == es[k].author@ ==> es[q].sequence
                    < es[k].sequence
        }
}

/// Event `k` is above its author's previous event.
spec fn sequence_rises_at(es: Seq<SignedEvent>, k: int) -> bool {
    !(previous_sequence(es, k, es[k].author@) matches Some(p) && p >= es[k].sequence)
}

proof fn lemma_previous_is_latest(es: Seq<SignedEvent>, i: int, a: Seq<char>)
    requires
        0 <= i <= es.len(),
    ensures
        previous_sequence(es, i, a) is None ==> forall|q: int| 0 <= q < i ==> (#[trigger] es[q]).author@ != a,
        previous_sequence(es, i, a) matches Some(p) ==> exists|j: int|
            0 <= j < i && (#[trigger] es[j]).author@ == a && es[j].sequence == p && forall|q: int|
                j < q < i ==> (#[trigger] es[q]).author@ != a,
    decreases i,
{
    if i > 0 && es[i - 1].author@ != a {
        lemma_previous_is_latest(es, i - 1, a);
        if let Some(p) = previous_sequence(es, i - 1, a) {
            let j = choose|j: int|
                0 <= j < i - 1 && (#[trigger] es[j]).author@ == a && es[j].sequence == p && forall|q: int|
                    j < q < i - 1 ==> (#[trigger] es[q]).author@ != a;
            assert(forall|q: int| j < q < i ==> (#[trigger] es[q]).author@ != a);
        }
    } else if i > 0 {
        assert(forall|q: int| i - 1 < q < i ==> (#[trigger] es[q]).author@ != a);
    }
}

/// Where every event is above its author's previous one, it is above all
/// earlier events of its author.
proof fn lemma_rises_above_all(es: Seq<SignedEvent>, k: int)
    requires
        0 <= k < es.len(),
        forall|i: int| 0 <= i < es.len() ==> #[trigger] sequence_rises_at(es, i),
    ensures
        forall|q: int| 0 <= q < k && (#[trigger] es[q]).author@ == es[k].author@ ==> es[q].sequence < es[k].sequence,
    decreases k,
{
    let a = es[k].author@;
    assert(sequence_rises_at(es, k));
    lemma_previous_is_latest(es, k, a);
    assert forall|q: int| 0 <= q < k && (#[trigger] es[q]).author@ == a implies es[q].sequence < es[k].sequence by {
        let p = previous_sequence(es, k, a)->0;
        let j = choose|j: int|
            0 <= j < k && (#[trigger] es[j]).author@ == a && es[j].sequence == p && forall|r: int|
                j < r < k ==> (#[trigger] es[r]).author@ != a;
        if q < j {
            lemma_rises_above_all(es, j);
        }
    }
}

proof fn lemma_chain_from_local(es: Seq<SignedEvent>, i: int)
    requires
        0 <= i <= es.len(),
    ensures
        (chain_from(es, i, link_before(es, i)) is Intact) <==> forall|k: int|
            i <= k < es.len() ==> {
                &&& verify_event_spec(#[trigger] es[k]) is Valid
                &&& es[k].prev_hash@ == link_before(es, k)
                &&& sequence_rises_at(es, k)
            },
    decreases es.len() - i,
{
    if i < es.len() {
        lemma_chain_from_local(es, i + 1);
        assert(link_before(es, i + 1) == event_hash_spec(es[i]));
    }
}

/// A log's chain check passes exactly when the log is sound.
pub proof fn lemma_intact_iff_sound(es: Seq<SignedEvent>)
    ensures
        (chain_from(es, 0, genesis_hash_spec()) is Intact) <==> log_sound(es),
{
    lemma_chain_from_local(es, 0);
    assert(link_before(es, 0) == genesis_hash_spec());
    if chain_from(es, 0, genesis_hash_spec()) is Intact {
        assert forall|k: int| 0 <= k < es.len() implies {
            &&& verify_event_spec(#[trigger] es[k]) is Valid
            &&& es[k].prev_hash@ == link_before(es, k)
            &&& forall|q: int|
                0 <= q < k && (#[trigger] es[q]).author@ == es[k].author@ ==> es[q].sequence
                    < es[k].sequence
        } by {
            assert forall|i: int| 0 <= i < es.len() implies #[trigger] sequence_rises_at(es, i) by {
                assert(verify_event_spec(es[i]) is Valid);
            }
            lemma_rises_above_all(es, k);
        }
    }
    if log_sound(es) {
        assert forall|k: int| 0 <= k < es.len() implies {
            &&& verify_event_spec(#[trigger] es[k]) is Valid
            &&& es[k].prev_hash@ == link_before(es, k)
            &&& sequence_rises_at(es, k)
        } by {
            lemma_previous_is_latest(es, k, es[k].author@);
            if let Some(p) = previous_sequence(es, k, es[k].author@) {
                let j = choose|j: int|
                    0 <= j < k && (#[trigger] es[j]).author@ == es[k].author@ && es[j].sequence == p
                        && forall|r: int| j < r < k ==> (#[trigger] es[r]).author@ != es[k].author@;
                assert(es[j].sequence < es[k].sequence);
            }
        }
    }
}

/// The events of the log, in order.
#[derive(Debug)]
pub struct EventLog {
    path: String,
    events: Vec<SignedEvent>,
    last_hash: String,
}

impl View for EventLog {
    type V = Seq<SignedEvent>;

    closed spec fn view(&self) -> Seq<SignedEvent> {
        self.events@
    }
}

/// The error a failed signature check gives.
pub open spec fn error_matches(e: HydraError, o: VerifyOutcome) -> bool {
    match o {
        VerifyOutcome::Crypto(m) => e matches HydraError::Crypto(t) && t@ == m,
        VerifyOutcome::BadSignature => e is InvalidSignature,
        VerifyOutcome::Valid => false,
    }
}

/// The log file in a directory.
pub open spec fn log_file(data_dir: Seq<char>) -> Seq<char> {
    path_join(data_dir, "events.jsonl"@)
}

fn push_str(s: &mut String, t: &str)
    ensures
        final(s)@ == old(s)@ + t@,
{
    s.append(t);
}

/// `previous_sequence` computed over the log's events.
fn previous_sequence_exec(events: &Vec<SignedEvent>, i: usize, author: &str) -> (r: Option<u64>)
    requires
        i <= events@.len(),
    ensures
        r == previous_sequence(events@, i as int, author@),
{
    let mut j = i;
    while j > 0
        invariant
            j <= i <= events@.len(),
            previous_sequence(events@, i as int, author@) == previous_sequence(events@, j as int, author@),
        decreases j,
    {
        if str_eq(events[j - 1].author.as_str(), author) {
            return Some(events[j - 1].sequence);
        }
        j = j - 1;
    }
    None
}

impl EventLog {
    #[verifier::type_invariant]
    spec fn inv(self) -> bool {
        self.last_hash@ == chain_tip(self.events@)
    }

    /// The file the log is kept in.
    pub closed spec fn file(&self) -> Seq<char> {
        self.path@
    }

    /// A log in `data_dir` holding `events` (read from its file).
    pub fn new(data_dir: &str, events: Vec<SignedEvent>) -> (l: Self)
        ensures
            l@ == events@,
            l.file() == log_file(data_dir@),
    {
        let last_hash = if events.len() == 0 {
            genesis_prev_hash()
        } else {
            event_hash(&events[events.len() - 1])
        };
        EventLog { path: join_path(data_dir, "events.jsonl"), events, last_hash }
    }

    /// The file of the log in `data_dir`.
    pub fn file_in(data_dir: &str) -> (p: String)
        ensures
            p@ == log_file(data_dir@),
    {
        join_path(data_dir, "events.jsonl")
    }

    /// The log's file.
    pub fn path(&self) -> (p: &str)
        ensures
            p@ == self.file(),
    {
        self.path.as_str()
    }

    /// Append an event; it must name the hash of the last event and carry
    /// a valid signature. Gives back the JSON line to store.
    pub fn append(&mut self, evt: SignedEvent) -> (r: Result<String, HydraError>)
        ensures
            final(self).file() == old(self).file(),
            evt.prev_hash@ != chain_tip(old(self)@) ==> {
                &&& r matches Err(HydraError::LogIntegrity(m)) && m@ == "prev_hash mismatch: expected "@
                    + chain_tip(old(self)@) + ", got "@ + evt.prev_hash@
                &&& final(self)@ == old(self)@
            },
            evt.prev_hash@ == chain_tip(old(self)@) ==> match verify_event_spec(evt) {
                VerifyOutcome::Valid => {
                    &&& r matches Ok(line) && line@ == event_json(evt)
                    &&& final(self)@ == old(self)@.push(evt)
                },
                o => (r matches Err(e) && error_matches(e, o)) && final(self)@ == old(self)@,
            },
    {
        proof {
            use_type_invariant(&*self);
        }
        if !str_eq(evt.prev_hash.as_str(), self.last_hash.as_str()) {
            let mut m = String::from_str("prev_hash mismatch: expected ");
            push_str(&mut m, self.last_hash.as_str());
            push_str(&mut m, ", got ");
            push_str(&mut m, evt.prev_hash.as_str());
            return Err(HydraError::LogIntegrity(m));
        }
        match verify_event(&evt) {
            Err(e) => {
                return Err(e);
            },
            Ok(()) => {},
        }
        let line = event_to_json(&evt);
        let h = event_hash(&evt);
        let mut old = EventLog { path: String::new(), events: Vec::new(), last_hash: genesis_prev_hash() };
        core::mem::swap(&mut old, self);
        let EventLog { path, events, last_hash: _ } = old;
        let mut events = events;
        events.push(evt);
        *self = EventLog { path, events, last_hash: h };
        Ok(line)
    }

    /// All events.
    pub fn events(&self) -> (e: &Vec<SignedEvent>)
        ensures
            e@ == self@,
    {
        &self.events
    }

    /// Number of events.
    pub fn len(&self) -> (n: usize)
        ensures
            n == self@.len(),
    {
        self.events.len()
    }

    /// Whether the log has no events.
    pub fn is_empty(&self) -> (b: bool)
        ensures
            b == (self@.len() == 0),
    {
        self.events.len() == 0
    }

    /// The hash the next event must name.
    pub fn last_hash(&self) -> (h: &str)
        ensures
            h@ == chain_tip(self@),
    {
        proof {
            use_type_invariant(self);
        }
        self.last_hash.as_str()
    }

    /// The events whose sequence number is above `since_sequence`, in
    /// order.
    pub fn events_since(&self, since_sequence: u64) -> (r: Vec<&SignedEvent>)
        ensures
            r@.map_values(|e: &SignedEvent| *e) == self@.filter(
                |e: SignedEvent| e.sequence > since_sequence,
            ),
    {
        let ghost es = self.events@;
        let mut r: Vec<&SignedEvent> = Vec::new();
        let mut i: usize = 0;
        while i < self.events.len()
            invariant
                i <= es.len(),
                es == self.events@,
                r@.map_values(|e: &SignedEvent| *e) == es.take(i as int).filter(
                    |e: SignedEvent| e.sequence > since_sequence,
                ),
            decreases es.len() - i,
        {
            let ghost r0 = r@;
            if self.events[i].sequence > since_sequence {
                r.push(&self.events[i]);
                assert(r@.map_values(|e: &SignedEvent| *e) =~= r0.map_values(|e: &SignedEvent| *e).push(es[i as int]));
            }
            proof {
                let t = es.take(i + 1);
                assert(t.drop_last() =~= es.take(i as int));
                assert(t.last() == es[i as int]);
                reveal(Seq::filter);
            }
            i = i + 1;
        }
        assert(es.take(es.len() as int) =~= es);
        r
    }

    /// Check the whole chain: every event's signature, that every event
    /// names the hash of the one before (the first: the zero hash), and
    /// that each author's sequence numbers rise.
    pub fn verify_chain(&self) -> (r: Result<(), HydraError>)
        ensures
            r is Ok <==> log_sound(self@),
            match chain_from(self@, 0, genesis_hash_spec()) {
                ChainOutcome::Intact => r is Ok,
                ChainOutcome::BadEvent(i, t) => r matches Err(HydraError::LogIntegrity(m)) && m@
                    == "invalid signature at event "@ + decimal(i as nat) + ": "@ + t,
                ChainOutcome::Broken(i, expected, got) => r matches Err(
                    HydraError::LogIntegrity(m),
                ) && m@ == "hash chain broken at event "@ + decimal(i as nat) + ": expected "@
                    + expected + ", got "@ + got,
                ChainOutcome::OutOfOrder(i, previous, got) => r matches Err(
                    HydraError::LogIntegrity(m),
                ) && m@ == "sequence not increasing at event "@ + decimal(i as nat)
                    + ": author's previous sequence "@ + decimal(previous as nat) + ", got "@
                    + decimal(got as nat),
            },
    {
        let ghost es = self.events@;
        proof {
            lemma_intact_iff_sound(es);
        }
        let mut expected = genesis_prev_hash();
        let mut i: usize = 0;
        while i < self.events.len()
            invariant
                i <= es.len(),
                es == self.events@,
                chain_from(es, 0, genesis_hash_spec()) == chain_from(es, i as int, expected@),
                (chain_from(es, 0, genesis_hash_spec()) is Intact) <==> log_sound(es),
            decreases es.len() - i,
        {
            let evt = &self.events[i];
            match verify_event(evt) {
                Err(e) => {
                    let mut m = String::from_str("invalid signature at event ");
                    push_decimal(&mut m, i as u64);
                    push_str(&mut m, ": ");
                    let t = e.to_text();
                    push_str(&mut m, t.as_str());
                    proof {
                        assert(t@ == outcome_text(verify_event_spec(es[i as int])));
                    }
                    return Err(HydraError::LogIntegrity(m));
                },
                Ok(()) => {},
            }
            if !str_eq(evt.prev_hash.as_str(), expected.as_str()) {
                let mut m = String::from_str("hash chain broken at event ");
                push_decimal(&mut m, i as u64);
                push_str(&mut m, ": expected ");
                push_str(&mut m, expected.as_str());
                push_str(&mut m, ", got ");
                push_str(&mut m, evt.prev_hash.as_str());
                return Err(HydraError::LogIntegrity(m));
            }
            match previous_sequence_exec(&self.events, i, evt.author.as_str()) {
                Some(p) => {
                    if p >= evt.sequence {
                        let mut m = String::from_str("sequence not increasing at event ");
                        push_decimal(&mut m, i as u64);
                        push_str(&mut m, ": author's previous sequence ");
                        push_decimal(&mut m, p);
                        push_str(&mut m, ", got ");
                        push_decimal(&mut m, evt.sequence);
                        return Err(HydraError::LogIntegrity(m));
                    }
                },
                None => {},
            }
            expected = event_hash(evt);
            i = i + 1;
        }
        Ok(())
    }
}

proof fn lemma_tip_from(es: Seq<SignedEvent>, i: int, x: Seq<char>)
    requires
        0 <= i <= es.len(),
    ensures
        tip_from(es, i, x) == (if i < es.len() {
            event_hash_spec(es.last())
        } else {
            x
        }),
    decreases es.len() - i,
{
    if i < es.len() {
        lemma_tip_from(es, i + 1, event_hash_spec(es[i]));
    }
}

pub(crate) proof fn lemma_previous_sequence_push(es: Seq<SignedEvent>, e: SignedEvent, k: int, a: Seq<char>)
    requires
        0 <= k <= es.len(),
    ensures
        previous_sequence(es.push(e), k, a) == previous_sequence(es, k, a),
    decreases k,
{
    if k > 0 {
        assert(es.push(e)[k - 1] == es[k - 1]);
        lemma_previous_sequence_push(es, e, k - 1, a);
    }
}

proof fn lemma_chain_push(es: Seq<SignedEvent>, e: SignedEvent, i: int, x: Seq<char>)
    requires
        0 <= i <= es.len(),
        chain_from(es, i, x) is Intact,
        e.prev_hash@ == tip_from(es, i, x),
        verify_event_spec(e) is Valid,
        previous_sequence(es, es.len() as int, e.author@) matches Some(p) ==> p < e.sequence,
    ensures
        chain_from(es.push(e), i, x) is Intact,
    decreases es.len() - i,
{
    let s = es.push(e);
    if i < es.len() {
        assert(s[i] == es[i]);
        lemma_previous_sequence_push(es, e, i, es[i].author@);
        lemma_chain_push(es, e, i + 1, event_hash_spec(es[i]));
    } else {
        lemma_previous_sequence_push(es, e, i, e.author@);
        assert(s[i] == e);
        assert(chain_from(s, i + 1, event_hash_spec(e)) is Intact);
    }
}

/// Appending an event that names the chain's tip, carries a valid
/// signature and a sequence number above its author's previous one keeps
/// an intact chain intact.
pub proof fn lemma_append_keeps_chain(es: Seq<SignedEvent>, e: SignedEvent)
    requires
        chain_from(es, 0, genesis_hash_spec()) is Intact,
        e.prev_hash@ == chain_tip(es),
        verify_event_spec(e) is Valid,
        previous_sequence(es, es.len() as int, e.author@) matches Some(p) ==> p < e.sequence,
    ensures
        chain_from(es.push(e), 0, genesis_hash_spec()) is Intact,
        chain_tip(es.push(e)) == event_hash_spec(e),
{
    lemma_tip_from(es, 0, genesis_hash_spec());
    lemma_chain_push(es, e, 0, genesis_hash_spec());
}

} // verus!
