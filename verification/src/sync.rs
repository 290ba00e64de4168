//! Bilateral sync: merging a peer's events into ours, and finding the
//! events a peer lacks.
use vstd::prelude::*;
use vstd::string::{StrSliceExecFns, StringExecFns, StringSliceAdditionalSpecFns};
use vstd::utf8::encode_utf8;

use crate::crypto::{sha256_hex, sha256_hex_spec};
use crate::error::HydraError;
use crate::event::{event_hash, event_hash_spec, verify_event, verify_event_spec, SignedEvent};
use crate::event_log::outcome_text;
use crate::num::{decimal, push_decimal};
use crate::strmap::str_eq;
use crate::text::{byte_prefix, byte_prefix_ok, str_byte_prefix, str_chars};
use crate::time::ts_before;

verus! {

/// Index of the first event at or after `i` whose signature check fails,
/// or the number of events.
pub open spec fn first_invalid(es: Seq<SignedEvent>, i: int) -> int
    decreases es.len() - i,
{
    if i < 0 || i >= es.len() {
        es.len() as int
    } else if !(verify_event_spec(es[i]) is Valid) {
        i
    } else {
        first_invalid(es, i + 1)
    }
}

/// Some event of `s` has hash `h`.
pub open spec fn has_hash(s: Seq<SignedEvent>, h: Seq<char>) -> bool {
    exists|j: int| 0 <= j < s.len() && event_hash_spec(#[trigger] s[j]) == h
}

/// The events of `s` without repeats: an event whose hash an earlier one
/// has is dropped.
pub open spec fn dedup_by_hash(s: Seq<SignedEvent>) -> Seq<SignedEvent>
    decreases s.len(),
{
    if s.len() == 0 {
        s
    } else {
        let p = dedup_by_hash(s.drop_last());
        if has_hash(p, event_hash_spec(s.last())) {
            p
        } else {
            p.push(s.last())
        }
    }
}

/// The tie-breaking hash of an event: SHA-256 of its signature text, in
/// hex.
pub open spec fn signature_hash(e: SignedEvent) -> Seq<char> {
    sha256_hex_spec(encode_utf8(e.signature@))
}

/// `a` comes before `b` in dictionary order of characters.
pub open spec fn text_before(a: Seq<char>, b: Seq<char>) -> bool
    decreases a.len(),
{
    if a.len() == 0 {
        b.len() > 0
    } else if b.len() == 0 {
        false
    } else if a[0] != b[0] {
        (a[0] as u32) < (b[0] as u32)
    } else {
        text_before(a.drop_first(), b.drop_first())
    }
}

/// Event order: by timestamp, then by signature hash.
pub open spec fn event_before(a: SignedEvent, b: SignedEvent) -> bool {
    ||| ts_before(a.timestamp, b.timestamp)
    ||| (a.timestamp == b.timestamp && text_before(signature_hash(a), signature_hash(b)))
}

/// Where a stable insertion puts `x`: before the first event that comes
/// after it.
pub open spec fn insert_pos(t: Seq<SignedEvent>, x: SignedEvent, i: int) -> int
    decreases t.len() - i,
{
    if i < 0 || i >= t.len() {
        t.len() as int
    } else if event_before(x, t[i]) {
        i
    } else {
        insert_pos(t, x, i + 1)
    }
}

/// The events in order (a stable sort: equal events keep their order).
pub open spec fn sorted_events(s: Seq<SignedEvent>) -> Seq<SignedEvent>
    decreases s.len(),
{
    if s.len() == 0 {
        s
    } else {
        let t = sorted_events(s.drop_last());
        t.insert(insert_pos(t, s.last(), 0), s.last())
    }
}

/// The merge of two event lists: all events, each once, in order.
pub open spec fn merged(local: Seq<SignedEvent>, remote: Seq<SignedEvent>) -> Seq<SignedEvent> {
    sorted_events(dedup_by_hash(local + remote))
}

/// The message for a remote event that fails its signature check.
pub open spec fn invalid_remote_message(e: SignedEvent) -> Seq<char> {
    "invalid remote event (seq="@ + decimal(e.sequence as nat) + ", author="@ + byte_prefix(
        e.author@,
        8,
    ) + "): "@ + outcome_text(verify_event_spec(e))
}

fn push_str(s: &mut String, t: &str)
    ensures
        final(s)@ == old(s)@ + t@,
{
    s.append(t);
}

proof fn lemma_insert_pos_bounds(t: Seq<SignedEvent>, x: SignedEvent, i: int)
    requires
        0 <= i <= t.len(),
    ensures
        i <= insert_pos(t, x, i) <= t.len(),
    decreases t.len() - i,
{
    if i < t.len() && !event_before(x, t[i]) {
        lemma_insert_pos_bounds(t, x, i + 1);
    }
}

fn text_before_exec(a: &Vec<char>, b: &Vec<char>) -> (r: bool)
    ensures
        r == text_before(a@, b@),
{
    let mut i: usize = 0;
    assert(a@.skip(0) =~= a@);
    assert(b@.skip(0) =~= b@);
    while i < a.len() && i < b.len()
        invariant
            i <= a@.len(),
            i <= b@.len(),
            text_before(a@, b@) == text_before(a@.skip(i as int), b@.skip(i as int)),
        decreases a@.len() - i,
    {
        if a[i] != b[i] {
            proof {
                assert(a@.skip(i as int)[0] == a@[i as int]);
                assert(b@.skip(i as int)[0] == b@[i as int]);
            }
            return (a[i] as u32) < (b[i] as u32);
        }
        proof {
            assert(a@.skip(i as int).drop_first() =~= a@.skip(i + 1));
            assert(b@.skip(i as int).drop_first() =~= b@.skip(i + 1));
        }
        i = i + 1;
    }
    proof {
        assert(a@.skip(i as int).len() == a@.len() - i);
        assert(b@.skip(i as int).len() == b@.len() - i);
    }
    i == a.len() && i < b.len()
}

/// Index of a string equal to `h`, if any.
fn position_of(v: &Vec<String>, h: &str) -> (r: Option<usize>)
    ensures
        match r {
            Some(j) => j < v@.len() && v@[j as int]@ == h@,
            None => forall|q: int| 0 <= q < v@.len() ==> (#[trigger] v@[q])@ != h@,
        },
{
    let mut j: usize = 0;
    while j < v.len()
        invariant
            j <= v@.len(),
            forall|q: int| 0 <= q < j ==> (#[trigger] v@[q])@ != h@,
        decreases v@.len() - j,
    {
        if str_eq(v[j].as_str(), h) {
            return Some(j);
        }
        j = j + 1;
    }
    None
}

/// Keep `e` unless an event already kept has its hash.
fn keep_unique<'a>(kept: &mut Vec<&'a SignedEvent>, kept_hashes: &mut Vec<String>, e: &'a SignedEvent)
    requires
        old(kept_hashes)@.len() == old(kept)@.len(),
        forall|j: int|
            0 <= j < old(kept)@.len() ==> (#[trigger] old(kept_hashes)@[j])@ == event_hash_spec(
                *old(kept)@[j],
            ),
    ensures
        final(kept_hashes)@.len() == final(kept)@.len(),
        forall|j: int|
            0 <= j < final(kept)@.len() ==> (#[trigger] final(kept_hashes)@[j])@ == event_hash_spec(
                *final(kept)@[j],
            ),
        final(kept)@.map_values(|x: &SignedEvent| *x) == (if has_hash(
            old(kept)@.map_values(|x: &SignedEvent| *x),
            event_hash_spec(*e),
        ) {
            old(kept)@.map_values(|x: &SignedEvent| *x)
        } else {
            old(kept)@.map_values(|x: &SignedEvent| *x).push(*e)
        }),
{
    let h = event_hash(e);
    let ghost p = kept@.map_values(|x: &SignedEvent| *x);
    match position_of(kept_hashes, h.as_str()) {
        Some(j) => {
            assert(p[j as int] == *kept@[j as int]);
            assert(has_hash(p, h@));
        },
        None => {
            assert forall|q: int| 0 <= q < p.len() implies event_hash_spec(#[trigger] p[q]) != h@ by {
                assert(kept_hashes@[q]@ == event_hash_spec(*kept@[q]));
            }
            kept.push(e);
            kept_hashes.push(h);
            assert(kept@.map_values(|x: &SignedEvent| *x) =~= p.push(*e));
        },
    }
}

/// Merge a peer's events into ours: every remote event must carry a valid
/// signature; then all events, each once (by hash), ordered by timestamp
/// and, on equal timestamps, by the hash of their signatures.
pub fn merge_events<'a>(local_events: &'a [SignedEvent], remote_events: &'a [SignedEvent]) -> (r:
    Result<Vec<&'a SignedEvent>, HydraError>)
    requires
        first_invalid(remote_events@, 0) < remote_events@.len() ==> byte_prefix_ok(
            remote_events@[first_invalid(remote_events@, 0)].author@,
            8,
        ),
    ensures
        first_invalid(remote_events@, 0) < remote_events@.len() ==> (r matches Err(
            HydraError::LogIntegrity(m),
        ) && m@ == invalid_remote_message(remote_events@[first_invalid(remote_events@, 0)])),
        first_invalid(remote_events@, 0) >= remote_events@.len() ==> (r matches Ok(v)
            && v@.map_values(|e: &SignedEvent| *e) == merged(local_events@, remote_events@)),
{
    let mut i: usize = 0;
    while i < remote_events.len()
        invariant
            i <= remote_events@.len(),
            first_invalid(remote_events@, 0) == first_invalid(remote_events@, i as int),
            first_invalid(remote_events@, 0) < remote_events@.len() ==> byte_prefix_ok(
                remote_events@[first_invalid(remote_events@, 0)].author@,
                8,
            ),
        decreases remote_events@.len() - i,
    {
        let evt = &remote_events[i];
        match verify_event(evt) {
            Err(e) => {
                let mut m = String::from_str("invalid remote event (seq=");
                push_decimal(&mut m, evt.sequence);
                push_str(&mut m, ", author=");
                let head = str_byte_prefix(evt.author.as_str(), 8);
                push_str(&mut m, head.as_str());
                push_str(&mut m, "): ");
                let t = e.to_text();
                push_str(&mut m, t.as_str());
                proof {
                    assert(t@ == outcome_text(verify_event_spec(remote_events@[i as int])));
                }
                return Err(HydraError::LogIntegrity(m));
            },
            Ok(()) => {},
        }
        i = i + 1;
    }
    // All events, each once.
    let ghost all = local_events@ + remote_events@;
    let mut kept: Vec<&'a SignedEvent> = Vec::new();
    let mut kept_hashes: Vec<String> = Vec::new();
    let mut k: usize = 0;
    assert(kept@.map_values(|e: &SignedEvent| *e) =~= dedup_by_hash(local_events@.take(0)));
    while k < local_events.len()
        invariant
            k <= local_events@.len(),
            kept@.map_values(|e: &SignedEvent| *e) == dedup_by_hash(local_events@.take(k as int)),
            kept_hashes@.len() == kept@.len(),
            forall|j: int|
                0 <= j < kept@.len() ==> (#[trigger] kept_hashes@[j])@ == event_hash_spec(
                    *kept@[j],
                ),
        decreases local_events@.len() - k,
    {
        proof {
            let t = local_events@.take(k + 1);
            assert(t.drop_last() =~= local_events@.take(k as int));
            assert(t.last() == local_events@[k as int]);
        }
        keep_unique(&mut kept, &mut kept_hashes, &local_events[k]);
        k = k + 1;
    }
    assert(local_events@.take(local_events@.len() as int) =~= local_events@ + remote_events@.take(0));
    let mut k: usize = 0;
    while k < remote_events.len()
        invariant
            k <= remote_events@.len(),
            kept@.map_values(|e: &SignedEvent| *e) == dedup_by_hash(
                local_events@ + remote_events@.take(k as int),
            ),
            kept_hashes@.len() == kept@.len(),
            forall|j: int|
                0 <= j < kept@.len() ==> (#[trigger] kept_hashes@[j])@ == event_hash_spec(
                    *kept@[j],
                ),
        decreases remote_events@.len() - k,
    {
        proof {
            let t = local_events@ + remote_events@.take(k + 1);
            assert(t.drop_last() =~= local_events@ + remote_events@.take(k as int));
            assert(t.last() == remote_events@[k as int]);
        }
        keep_unique(&mut kept, &mut kept_hashes, &remote_events[k]);
        k = k + 1;
    }
    assert(local_events@ + remote_events@.take(remote_events@.len() as int) =~= all);
    // Stable insertion sort by (timestamp, signature hash).
    let ghost d = kept@.map_values(|e: &SignedEvent| *e);
    let mut sorted: Vec<&'a SignedEvent> = Vec::new();
    let mut sig_hashes: Vec<Vec<char>> = Vec::new();
    let mut m: usize = 0;
    while m < kept.len()
        invariant
            m <= kept@.len(),
            d == kept@.map_values(|e: &SignedEvent| *e),
            sorted@.map_values(|e: &SignedEvent| *e) == sorted_events(d.take(m as int)),
            sig_hashes@.len() == sorted@.len(),
            forall|q: int|
                0 <= q < sorted@.len() ==> (#[trigger] sig_hashes@[q])@ == signature_hash(
                    *sorted@[q],
                ),
        decreases kept@.len() - m,
    {
        let x: &'a SignedEvent = kept[m];
        let xs = sha256_hex(x.signature.as_str().as_bytes_vec().as_slice());
        let xh = str_chars(xs.as_str());
        let ghost t = sorted@.map_values(|e: &SignedEvent| *e);
        let mut pos: usize = 0;
        let mut found = false;
        while pos < sorted.len() && !found
            invariant
                pos <= sorted@.len(),
                t == sorted@.map_values(|e: &SignedEvent| *e),
                sig_hashes@.len() == sorted@.len(),
                forall|q: int|
                    0 <= q < sorted@.len() ==> (#[trigger] sig_hashes@[q])@ == signature_hash(
                        *sorted@[q],
                    ),
                xh@ == signature_hash(*x),
                insert_pos(t, *x, 0) == insert_pos(t, *x, pos as int),
                found ==> pos < t.len() && event_before(*x, t[pos as int]),
            decreases sorted@.len() - pos + (if found {
                0int
            } else {
                1int
            }),
        {
            let y: &SignedEvent = sorted[pos];
            assert(t[pos as int] == *y);
            let before = x.timestamp.before(&y.timestamp) || (x.timestamp == y.timestamp
                && text_before_exec(&xh, &sig_hashes[pos as usize]));
            if before {
                found = true;
            } else {
                pos = pos + 1;
            }
        }
        proof {
            lemma_insert_pos_bounds(t, *x, pos as int);
            assert(insert_pos(t, *x, pos as int) == pos);
            assert(d.take(m + 1).drop_last() =~= d.take(m as int));
            assert(d.take(m + 1).last() == *x);
            assert(d[m as int] == *x);
        }
        let ghost sh0 = sig_hashes@;
        let ghost so0 = sorted@;
        sorted.insert(pos, x);
        sig_hashes.insert(pos, xh);
        proof {
            assert(sorted@.map_values(|e: &SignedEvent| *e) =~= t.insert(pos as int, *x));
            assert forall|q: int| 0 <= q < sorted@.len() implies (#[trigger] sig_hashes@[q])@
                == signature_hash(*sorted@[q]) by {
                if q < pos {
                    assert(sig_hashes@[q] == sh0[q] && sorted@[q] == so0[q]);
                } else if q == pos {
                } else {
                    assert(sig_hashes@[q] == sh0[q - 1] && sorted@[q] == so0[q - 1]);
                }
            }
        }
        m = m + 1;
    }
    proof {
        assert(d.take(d.len() as int) =~= d);
    }
    Ok(sorted)
}

/// Our events that the peer lacks (by hash), in our order.
pub open spec fn missing_from(local: Seq<SignedEvent>, remote: Seq<SignedEvent>) -> Seq<
    SignedEvent,
>
    decreases local.len(),
{
    if local.len() == 0 {
        local
    } else {
        let p = missing_from(local.drop_last(), remote);
        if has_hash(remote, event_hash_spec(local.last())) {
            p
        } else {
            p.push(local.last())
        }
    }
}

/// The events of ours to send to a peer: those whose hash none of its
/// events has.
pub fn events_to_send<'a>(local_events: &'a [SignedEvent], remote_events: &[SignedEvent]) -> (r: Vec<
    &'a SignedEvent,
>)
    ensures
        r@.map_values(|e: &SignedEvent| *e) == missing_from(local_events@, remote_events@),
{
    let mut remote_hashes: Vec<String> = Vec::new();
    let mut i: usize = 0;
    while i < remote_events.len()
        invariant
            i <= remote_events@.len(),
            remote_hashes@.len() == i,
            forall|j: int|
                0 <= j < i ==> (#[trigger] remote_hashes@[j])@ == event_hash_spec(
                    remote_events@[j],
                ),
        decreases remote_events@.len() - i,
    {
        remote_hashes.push(event_hash(&remote_events[i]));
        i = i + 1;
    }
    let mut r: Vec<&'a SignedEvent> = Vec::new();
    let mut k: usize = 0;
    while k < local_events.len()
        invariant
            k <= local_events@.len(),
            remote_hashes@.len() == remote_events@.len(),
            forall|j: int|
                0 <= j < remote_events@.len() ==> (#[trigger] remote_hashes@[j])@
                    == event_hash_spec(remote_events@[j]),
            r@.map_values(|e: &SignedEvent| *e) == missing_from(
                local_events@.take(k as int),
                remote_events@,
            ),
        decreases local_events@.len() - k,
    {
        let e = &local_events[k];
        let h = event_hash(e);
        let pos = position_of(&remote_hashes, h.as_str());
        let found = pos.is_some();
        let ghost p = r@.map_values(|e: &SignedEvent| *e);
        proof {
            let t = local_events@.take(k + 1);
            assert(t.drop_last() =~= local_events@.take(k as int));
            assert(t.last() == local_events@[k as int]);
            match pos {
                Some(j) => {
                    assert(remote_hashes@[j as int]@ == event_hash_spec(remote_events@[j as int]));
                    assert(has_hash(remote_events@, h@));
                },
                None => {
                    assert forall|q: int| 0 <= q < remote_events@.len() implies event_hash_spec(
                        #[trigger] remote_events@[q],
                    ) != h@ by {
                        assert(remote_hashes@[q]@ == event_hash_spec(remote_events@[q]));
                    }
                },
            }
        }
        if !found {
            r.push(e);
            assert(r@.map_values(|e: &SignedEvent| *e) =~= p.push(*e));
        }
        k = k + 1;
    }
    assert(local_events@.take(local_events@.len() as int) =~= local_events@);
    r
}

/// No event of `s` comes before an event that precedes it in `s`.
pub open spec fn in_event_order(s: Seq<SignedEvent>) -> bool {
    forall|i: int, j: int| 0 <= i < j < s.len() ==> !event_before(#[trigger] s[j], #[trigger] s[i])
}

/// No two events of `s` have the same hash.
pub open spec fn hashes_distinct(s: Seq<SignedEvent>) -> bool {
    forall|i: int, j: int|
        0 <= i < s.len() && 0 <= j < s.len() && i != j ==> event_hash_spec(#[trigger] s[i])
            != event_hash_spec(#[trigger] s[j])
}

proof fn lemma_text_before_irreflexive(a: Seq<char>)
    ensures
        !text_before(a, a),
    decreases a.len(),
{
    if a.len() > 0 {
        lemma_text_before_irreflexive(a.drop_first());
    }
}

proof fn lemma_text_before_transitive(a: Seq<char>, b: Seq<char>, c: Seq<char>)
    requires
        text_before(a, b),
        text_before(b, c),
    ensures
        text_before(a, c),
    decreases a.len(),
{
    if a.len() > 0 && b.len() > 0 && c.len() > 0 && a[0] == b[0] && b[0] == c[0] {
        lemma_text_before_transitive(a.drop_first(), b.drop_first(), c.drop_first());
    }
}

proof fn lemma_event_before_irreflexive(a: SignedEvent)
    ensures
        !event_before(a, a),
{
    lemma_text_before_irreflexive(signature_hash(a));
}

proof fn lemma_event_before_transitive(a: SignedEvent, b: SignedEvent, c: SignedEvent)
    requires
        event_before(a, b),
        event_before(b, c),
    ensures
        event_before(a, c),
{
    if a.timestamp == b.timestamp && b.timestamp == c.timestamp {
        lemma_text_before_transitive(signature_hash(a), signature_hash(b), signature_hash(c));
    }
}

proof fn lemma_insert_pos_split(t: Seq<SignedEvent>, x: SignedEvent, i: int)
    requires
        0 <= i <= t.len(),
    ensures
        i <= insert_pos(t, x, i) <= t.len(),
        forall|k: int| i <= k < insert_pos(t, x, i) ==> !event_before(x, #[trigger] t[k]),
        insert_pos(t, x, i) < t.len() ==> event_before(x, t[insert_pos(t, x, i)]),
    decreases t.len() - i,
{
    if i < t.len() && !event_before(x, t[i]) {
        lemma_insert_pos_split(t, x, i + 1);
    }
}

/// Sorting keeps the events (each as often as before) and puts them in
/// order.
proof fn lemma_sorted_events(s: Seq<SignedEvent>)
    ensures
        in_event_order(sorted_events(s)),
        sorted_events(s).len() == s.len(),
        forall|y: SignedEvent|
            #![trigger sorted_events(s).contains(y)]
            #![trigger s.contains(y)]
            sorted_events(s).contains(y) <==> s.contains(y),
        hashes_distinct(s) ==> hashes_distinct(sorted_events(s)),
    decreases s.len(),
{
    if s.len() > 0 {
        let d = s.drop_last();
        let t = sorted_events(d);
        let x = s.last();
        lemma_sorted_events(d);
        lemma_insert_pos_split(t, x, 0);
        let p = insert_pos(t, x, 0);
        let u = t.insert(p, x);
        assert(u == sorted_events(s));
        assert forall|i: int, j: int| 0 <= i < j < u.len() implies !event_before(
            #[trigger] u[j],
            #[trigger] u[i],
        ) by {
            if j < p {
                assert(u[i] == t[i] && u[j] == t[j]);
            } else if j == p {
                assert(u[i] == t[i] && u[j] == x);
            } else if i < p {
                assert(u[i] == t[i] && u[j] == t[j - 1]);
            } else if i == p {
                assert(u[i] == x && u[j] == t[j - 1]);
                if event_before(t[j - 1], x) {
                    lemma_event_before_transitive(t[j - 1], x, t[p]);
                    if j - 1 == p {
                        lemma_event_before_irreflexive(t[p]);
                    }
                }
            } else {
                assert(u[i] == t[i - 1] && u[j] == t[j - 1]);
            }
        }
        assert forall|y: SignedEvent| u.contains(y) <==> s.contains(y) by {
            if u.contains(y) {
                let k = choose|k: int| 0 <= k < u.len() && u[k] == y;
                if k == p {
                    assert(s[s.len() - 1] == y);
                } else {
                    let m = if k < p {
                        k
                    } else {
                        k - 1
                    };
                    assert(t[m] == y);
                    assert(t.contains(y));
                    let q = choose|q: int| 0 <= q < d.len() && d[q] == y;
                    assert(s[q] == y);
                }
            }
            if s.contains(y) {
                let k = choose|k: int| 0 <= k < s.len() && s[k] == y;
                if k == s.len() - 1 {
                    assert(u[p] == y);
                } else {
                    assert(d[k] == y);
                    assert(d.contains(y));
                    let m = choose|m: int| 0 <= m < t.len() && t[m] == y;
                    if m < p {
                        assert(u[m] == y);
                    } else {
                        assert(u[m + 1] == y);
                    }
                }
            }
        }
        if hashes_distinct(s) {
            assert(hashes_distinct(d)) by {
                assert forall|i: int, j: int|
                    0 <= i < d.len() && 0 <= j < d.len() && i != j implies event_hash_spec(
                    #[trigger] d[i],
                ) != event_hash_spec(#[trigger] d[j]) by {
                    assert(d[i] == s[i] && d[j] == s[j]);
                }
            }
            assert forall|m: int| 0 <= m < t.len() implies event_hash_spec(#[trigger] t[m])
                != event_hash_spec(x) by {
                assert(t.contains(t[m]));
                let q = choose|q: int| 0 <= q < d.len() && d[q] == t[m];
                assert(s[q] == t[m]);
                assert(s[s.len() - 1] == x);
            }
            assert forall|i: int, j: int|
                0 <= i < u.len() && 0 <= j < u.len() && i != j implies event_hash_spec(
                #[trigger] u[i],
            ) != event_hash_spec(#[trigger] u[j]) by {
                let mi = if i < p {
                    i
                } else {
                    i - 1
                };
                let mj = if j < p {
                    j
                } else {
                    j - 1
                };
                if i != p && j != p {
                    assert(u[i] == t[mi] && u[j] == t[mj]);
                } else if i == p {
                    assert(u[i] == x && u[j] == t[mj]);
                } else {
                    assert(u[j] == x && u[i] == t[mi]);
                }
            }
        }
    }
}

/// Dropping repeats leaves no two events with one hash, keeps a hash of
/// each event, and adds nothing.
proof fn lemma_dedup_by_hash(s: Seq<SignedEvent>)
    ensures
        hashes_distinct(dedup_by_hash(s)),
        forall|y: SignedEvent| #[trigger] dedup_by_hash(s).contains(y) ==> s.contains(y),
        forall|k: int| 0 <= k < s.len() ==> has_hash(dedup_by_hash(s), event_hash_spec(#[trigger] s[k])),
    decreases s.len(),
{
    if s.len() > 0 {
        let d = s.drop_last();
        let p = dedup_by_hash(d);
        let x = s.last();
        lemma_dedup_by_hash(d);
        let r = dedup_by_hash(s);
        assert forall|y: SignedEvent| r.contains(y) implies s.contains(y) by {
            let k = choose|k: int| 0 <= k < r.len() && r[k] == y;
            if k < p.len() {
                assert(p[k] == y);
                assert(p.contains(y));
                let q = choose|q: int| 0 <= q < d.len() && d[q] == y;
                assert(s[q] == y);
            } else {
                assert(s[s.len() - 1] == y);
            }
        }
        assert forall|k: int| 0 <= k < s.len() implies has_hash(r, event_hash_spec(#[trigger] s[k])) by {
            if k < d.len() {
                assert(d[k] == s[k]);
                let q = choose|q: int| 0 <= q < p.len() && event_hash_spec(#[trigger] p[q]) == event_hash_spec(d[k]);
                assert(r[q] == p[q]);
            } else if !has_hash(p, event_hash_spec(x)) {
                assert(r[p.len() as int] == x);
            }
        }
        if !has_hash(p, event_hash_spec(x)) {
            assert forall|i: int, j: int|
                0 <= i < r.len() && 0 <= j < r.len() && i != j implies event_hash_spec(
                #[trigger] r[i],
            ) != event_hash_spec(#[trigger] r[j]) by {
                if i < p.len() && j < p.len() {
                    assert(r[i] == p[i] && r[j] == p[j]);
                } else if i < p.len() {
                    assert(r[i] == p[i] && r[j] == x);
                } else {
                    assert(r[j] == p[j] && r[i] == x);
                }
            }
        }
    }
}

/// Merging two logs gives each of their events exactly once (no two
/// share a hash, and every event's hash is there), adds none, and puts
/// them in order: no event comes before one that precedes it.
pub proof fn lemma_merge_each_once_in_order(local: Seq<SignedEvent>, remote: Seq<SignedEvent>)
    ensures
        in_event_order(merged(local, remote)),
        hashes_distinct(merged(local, remote)),
        forall|k: int|
            0 <= k < (local + remote).len() ==> has_hash(
                merged(local, remote),
                event_hash_spec(#[trigger] (local + remote)[k]),
            ),
        forall|e: SignedEvent| merged(local, remote).contains(e) ==> (local + remote).contains(e),
{
    let all = local + remote;
    let d = dedup_by_hash(all);
    let m = merged(local, remote);
    lemma_dedup_by_hash(all);
    lemma_sorted_events(d);
    assert forall|k: int| 0 <= k < all.len() implies has_hash(m, event_hash_spec(#[trigger] all[k])) by {
        let q = choose|q: int| 0 <= q < d.len() && event_hash_spec(#[trigger] d[q]) == event_hash_spec(all[k]);
        assert(d.contains(d[q]));
        let r = choose|r: int| 0 <= r < m.len() && m[r] == d[q];
        assert(event_hash_spec(m[r]) == event_hash_spec(all[k]));
    }
}

/// Each of our events is either held by the peer (by hash) or among those
/// we send it.
proof fn lemma_missing_from_covers(local: Seq<SignedEvent>, remote: Seq<SignedEvent>)
    ensures
        forall|k: int|
            0 <= k < local.len() ==> has_hash(remote, event_hash_spec(#[trigger] local[k]))
                || missing_from(local, remote).contains(local[k]),
    decreases local.len(),
{
    if local.len() > 0 {
        let d = local.drop_last();
        let p = missing_from(d, remote);
        lemma_missing_from_covers(d, remote);
        assert forall|k: int|
            0 <= k < local.len() implies has_hash(remote, event_hash_spec(#[trigger] local[k]))
                || missing_from(local, remote).contains(local[k]) by {
            if k < d.len() {
                assert(d[k] == local[k]);
                if p.contains(d[k]) && !has_hash(remote, event_hash_spec(local.last())) {
                    let q = choose|q: int| 0 <= q < p.len() && p[q] == d[k];
                    assert(missing_from(local, remote)[q] == d[k]);
                }
            } else if !has_hash(remote, event_hash_spec(local.last())) {
                assert(missing_from(local, remote)[p.len() as int] == local[k]);
            }
        }
    }
}

/// A peer that merges the events we send it (`events_to_send`) into its
/// own then holds every event of ours, by hash.
pub proof fn lemma_sent_then_merged_holds_all(local: Seq<SignedEvent>, remote: Seq<SignedEvent>)
    ensures
        forall|k: int|
            0 <= k < local.len() ==> has_hash(
                merged(remote, missing_from(local, remote)),
                event_hash_spec(#[trigger] local[k]),
            ),
{
    let sent = missing_from(local, remote);
    let all = remote + sent;
    lemma_missing_from_covers(local, remote);
    lemma_merge_each_once_in_order(remote, sent);
    assert forall|k: int| 0 <= k < local.len() implies has_hash(
        merged(remote, sent),
        event_hash_spec(#[trigger] local[k]),
    ) by {
        let h = event_hash_spec(local[k]);
        if has_hash(remote, h) {
            let j = choose|j: int| 0 <= j < remote.len() && event_hash_spec(#[trigger] remote[j]) == h;
            assert(all[j] == remote[j]);
            assert(has_hash(merged(remote, sent), event_hash_spec(all[j])));
        } else {
            let q = choose|q: int| 0 <= q < sent.len() && sent[q] == local[k];
            assert(all[remote.len() + q] == sent[q]);
            assert(has_hash(merged(remote, sent), event_hash_spec(all[remote.len() + q])));
        }
    }
}

} // verus!
