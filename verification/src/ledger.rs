//! The certificate ledger: per domain, the certificate most observers see
//! (the consensus), certificates seen by a minority (anomalies) and former
//! consensus certificates (history).
use vstd::prelude::*;

use crate::event::{EventPayload, SignedEvent};
use crate::observation::CertObservation;
use crate::strmap::str_eq;

verus! {

/// A certificate seen for a domain that differs from its consensus.
#[derive(Debug)]
pub struct Anomaly {
    pub fingerprint: String,
    pub issuer: String,
    pub observer_count: u32,
    pub first_seen: i64,
    pub last_seen: i64,
    pub status: AnomalyStatus,
}

#[derive(Debug, Clone, Copy, PartialEq, Eq, Structural)]
pub enum AnomalyStatus {
    Active,
    Resolved,
    ConfirmedAttack,
}

/// A former consensus certificate of a domain.
#[derive(Debug)]
pub struct HistoryEntry {
    pub fingerprint: String,
    pub issuer: String,
    pub first_seen: i64,
    pub last_seen: i64,
    pub rotation_type: RotationType,
}

#[derive(Debug, Clone, Copy, PartialEq, Eq, Structural)]
pub enum RotationType {
    Normal,
    Forced,
    Suspicious,
}

/// The certificate most observers of a domain see.
#[derive(Debug)]
pub struct ConsensusCert {
    pub fingerprint: String,
    pub chain_fps: Vec<String>,
    pub issuer: String,
    pub not_before: i64,
    pub not_after: i64,
    pub first_seen: i64,
    pub last_seen: i64,
    pub total_obs: u32,
    pub unique_observers: u32,
}

/// What the ledger knows of one domain.
#[derive(Debug)]
pub struct DomainEntry {
    pub domain: String,
    pub consensus_cert: ConsensusCert,
    pub history: Vec<HistoryEntry>,
    pub anomalies: Vec<Anomaly>,
}

/// The ledger: one entry per domain.
#[derive(Debug)]
pub struct CertificateLedger {
    entries: Vec<DomainEntry>,
}

// ---------------------------------------------------------------------
// Views
// ---------------------------------------------------------------------

pub struct AnomalyView {
    pub fingerprint: Seq<char>,
    pub issuer: Seq<char>,
    pub observer_count: u32,
    pub first_seen: i64,
    pub last_seen: i64,
    pub status: AnomalyStatus,
}

pub struct HistoryView {
    pub fingerprint: Seq<char>,
    pub issuer: Seq<char>,
    pub first_seen: i64,
    pub last_seen: i64,
    pub rotation_type: RotationType,
}

pub struct ConsensusView {
    pub fingerprint: Seq<char>,
    pub chain_fps: Seq<Seq<char>>,
    pub issuer: Seq<char>,
    pub not_before: i64,
    pub not_after: i64,
    pub first_seen: i64,
    pub last_seen: i64,
    pub total_obs: u32,
    pub unique_observers: u32,
}

pub struct DomainView {
    pub domain: Seq<char>,
    pub consensus: ConsensusView,
    pub history: Seq<HistoryView>,
    pub anomalies: Seq<AnomalyView>,
}

/// The text of each string.
pub open spec fn strings_view(v: Seq<String>) -> Seq<Seq<char>> {
    v.map_values(|s: String| s@)
}

impl View for Anomaly {
    type V = AnomalyView;

    open spec fn view(&self) -> AnomalyView {
        AnomalyView {
            fingerprint: self.fingerprint@,
            issuer: self.issuer@,
            observer_count: self.observer_count,
            first_seen: self.first_seen,
            last_seen: self.last_seen,
            status: self.status,
        }
    }
}

impl View for HistoryEntry {
    type V = HistoryView;

    open spec fn view(&self) -> HistoryView {
        HistoryView {
            fingerprint: self.fingerprint@,
            issuer: self.issuer@,
            first_seen: self.first_seen,
            last_seen: self.last_seen,
            rotation_type: self.rotation_type,
        }
    }
}

impl View for ConsensusCert {
    type V = ConsensusView;

    open spec fn view(&self) -> ConsensusView {
        ConsensusView {
            fingerprint: self.fingerprint@,
            chain_fps: strings_view(self.chain_fps@),
            issuer: self.issuer@,
            not_before: self.not_before,
            not_after: self.not_after,
            first_seen: self.first_seen,
            last_seen: self.last_seen,
            total_obs: self.total_obs,
            unique_observers: self.unique_observers,
        }
    }
}

impl View for DomainEntry {
    type V = DomainView;

    open spec fn view(&self) -> DomainView {
        DomainView {
            domain: self.domain@,
            consensus: self.consensus_cert@,
            history: self.history@.map_values(|h: HistoryEntry| h@),
            anomalies: self.anomalies@.map_values(|a: Anomaly| a@),
        }
    }
}

/// No two entries are for the same domain.
pub open spec fn unique_domains(e: Seq<DomainEntry>) -> bool {
    forall|i: int, j: int|
        0 <= i < j < e.len() ==> (#[trigger] e[i]).domain@ != (#[trigger] e[j]).domain@
}

/// Some entry is for domain `d`.
pub open spec fn has_domain(e: Seq<DomainEntry>, d: Seq<char>) -> bool {
    exists|i: int| 0 <= i < e.len() && (#[trigger] e[i]).domain@ == d
}

/// The ledger a list of entries denotes: domain → entry.
pub open spec fn domains_map(e: Seq<DomainEntry>) -> Map<Seq<char>, DomainView> {
    Map::new(
        |d: Seq<char>| has_domain(e, d),
        |d: Seq<char>| e[choose|i: int| 0 <= i < e.len() && (#[trigger] e[i]).domain@ == d]@,
    )
}

impl View for CertificateLedger {
    type V = Map<Seq<char>, DomainView>;

    closed spec fn view(&self) -> Map<Seq<char>, DomainView> {
        domains_map(self.entries@)
    }
}

proof fn lemma_domains_map_at(e: Seq<DomainEntry>, i: int)
    requires
        unique_domains(e),
        0 <= i < e.len(),
    ensures
        domains_map(e).contains_key(e[i].domain@),
        domains_map(e)[e[i].domain@] == e[i]@,
{
    let d = e[i].domain@;
    assert(has_domain(e, d));
    let j = choose|j: int| 0 <= j < e.len() && (#[trigger] e[j]).domain@ == d;
    if j != i {
        if j < i {
            assert(e[j].domain@ != e[i].domain@);
        } else {
            assert(e[i].domain@ != e[j].domain@);
        }
    }
}

proof fn lemma_domains_map_len(e: Seq<DomainEntry>)
    requires
        unique_domains(e),
    ensures
        domains_map(e).dom().finite(),
        domains_map(e).len() == e.len(),
    decreases e.len(),
{
    if e.len() == 0 {
        assert(domains_map(e).dom() =~= Set::<Seq<char>>::empty());
    } else {
        let p = e.drop_last();
        assert(unique_domains(p)) by {
            assert forall|a: int, b: int| 0 <= a < b < p.len() implies (
            #[trigger] p[a]).domain@ != (#[trigger] p[b]).domain@ by {
                assert(e[a].domain@ != e[b].domain@);
            }
        }
        lemma_domains_map_len(p);
        let k = e.last().domain@;
        assert(!domains_map(p).dom().contains(k)) by {
            if has_domain(p, k) {
                let j = choose|j: int| 0 <= j < p.len() && (#[trigger] p[j]).domain@ == k;
                assert(e[j].domain@ != e[e.len() - 1].domain@);
            }
        }
        assert(domains_map(e).dom() =~= domains_map(p).dom().insert(k)) by {
            assert forall|x: Seq<char>| #[trigger]
                domains_map(e).dom().contains(x) == domains_map(p).dom().insert(k).contains(x) by {
                if has_domain(e, x) {
                    let j = choose|j: int| 0 <= j < e.len() && (#[trigger] e[j]).domain@ == x;
                    if j < p.len() {
                        assert(p[j].domain@ == x);
                    }
                }
                if has_domain(p, x) {
                    let j = choose|j: int| 0 <= j < p.len() && (#[trigger] p[j]).domain@ == x;
                    assert(e[j].domain@ == x);
                }
                if x == k {
                    assert(e[e.len() - 1].domain@ == x);
                }
            }
        }
    }
}

// ---------------------------------------------------------------------
// Consensus rules
// ---------------------------------------------------------------------

/// Index of the first anomaly at or after `i` with fingerprint `fp`, or
/// the number of anomalies when there is none.
pub open spec fn find_anomaly(a: Seq<AnomalyView>, fp: Seq<char>, i: int) -> int
    decreases a.len() - i,
{
    if i < 0 || i >= a.len() {
        a.len() as int
    } else if a[i].fingerprint == fp {
        i
    } else {
        find_anomaly(a, fp, i + 1)
    }
}

/// The anomalies whose fingerprint is not `fp`, in order.
pub open spec fn without_fp(a: Seq<AnomalyView>, fp: Seq<char>) -> Seq<AnomalyView>
    decreases a.len(),
{
    if a.len() == 0 {
        a
    } else {
        let r = without_fp(a.drop_last(), fp);
        if a.last().fingerprint == fp {
            r
        } else {
            r.push(a.last())
        }
    }
}

/// The entry a domain gets from its first observation.
pub open spec fn first_entry(o: CertObservation) -> DomainView {
    let t = o.observed_at@.0;
    DomainView {
        domain: o.domain@,
        consensus: ConsensusView {
            fingerprint: o.cert_fingerprint@,
            chain_fps: strings_view(o.chain_fingerprints@),
            issuer: o.issuer@,
            not_before: o.not_before,
            not_after: o.not_after,
            first_seen: t,
            last_seen: t,
            total_obs: 1,
            unique_observers: 1,
        },
        history: Seq::empty(),
        anomalies: Seq::empty(),
    }
}

/// The entry after one more observation of its domain.
///
/// When the observation matches the consensus, the counts grow. When it
/// does not, a fingerprint not seen before becomes a new active
/// anomaly; a known anomaly gains an observer, and once it has more than
/// half of the observers (consensus observers plus its own) it becomes the
/// consensus: the old consensus moves to the history as a normal rotation
/// and the fingerprint leaves the anomalies.
pub open spec fn next_entry(e: DomainView, o: CertObservation) -> DomainView {
    let t = o.observed_at@.0;
    let fp = o.cert_fingerprint@;
    let c = e.consensus;
    if fp == c.fingerprint {
        DomainView {
            consensus: ConsensusView {
                total_obs: (c.total_obs + 1) as u32,
                last_seen: t,
                unique_observers: (c.unique_observers + 1) as u32,
                ..c
            },
            ..e
        }
    } else {
        let j = find_anomaly(e.anomalies, fp, 0);
        if j < e.anomalies.len() {
            let a = e.anomalies[j];
            let a2 = AnomalyView {
                observer_count: (a.observer_count + 1) as u32,
                last_seen: t,
                ..a
            };
            let total = c.unique_observers + a2.observer_count;
            if a2.observer_count > total / 2 {
                DomainView {
                    consensus: ConsensusView {
                        fingerprint: fp,
                        chain_fps: strings_view(o.chain_fingerprints@),
                        issuer: o.issuer@,
                        not_before: o.not_before,
                        not_after: o.not_after,
                        first_seen: a2.first_seen,
                        last_seen: t,
                        total_obs: a2.observer_count,
                        unique_observers: a2.observer_count,
                    },
                    history: e.history.push(
                        HistoryView {
                            fingerprint: c.fingerprint,
                            issuer: c.issuer,
                            first_seen: c.first_seen,
                            last_seen: c.last_seen,
                            rotation_type: RotationType::Normal,
                        },
                    ),
                    anomalies: without_fp(e.anomalies.update(j, a2), fp),
                    ..e
                }
            } else {
                DomainView { anomalies: e.anomalies.update(j, a2), ..e }
            }
        } else {
            DomainView {
                anomalies: e.anomalies.push(
                    AnomalyView {
                        fingerprint: fp,
                        issuer: o.issuer@,
                        observer_count: 1,
                        first_seen: t,
                        last_seen: t,
                        status: AnomalyStatus::Active,
                    },
                ),
                ..e
            }
        }
    }
}

/// The ledger after one observation.
pub open spec fn ledger_after(m: Map<Seq<char>, DomainView>, o: CertObservation) -> Map<
    Seq<char>,
    DomainView,
> {
    let d = o.domain@;
    if m.contains_key(d) {
        m.insert(d, next_entry(m[d], o))
    } else {
        m.insert(d, first_entry(o))
    }
}

/// The observation's counts fit in 32 bits (a count that would pass
/// `u32::MAX` makes the arithmetic overflow).
pub open spec fn counts_fit(m: Map<Seq<char>, DomainView>, o: CertObservation) -> bool {
    let d = o.domain@;
    m.contains_key(d) ==> {
        let e = m[d];
        let c = e.consensus;
        let fp = o.cert_fingerprint@;
        if fp == c.fingerprint {
            c.total_obs < u32::MAX && c.unique_observers < u32::MAX
        } else {
            let j = find_anomaly(e.anomalies, fp, 0);
            j < e.anomalies.len() ==> c.unique_observers + e.anomalies[j].observer_count + 1
                <= u32::MAX
        }
    }
}

/// The ledger after a sequence of observations, in order.
pub open spec fn ledger_fold(m: Map<Seq<char>, DomainView>, obs: Seq<CertObservation>) -> Map<
    Seq<char>,
    DomainView,
>
    decreases obs.len(),
{
    if obs.len() == 0 {
        m
    } else {
        ledger_after(ledger_fold(m, obs.drop_last()), obs.last())
    }
}

/// Every step of the fold fits in 32 bits.
pub open spec fn fold_fits(m: Map<Seq<char>, DomainView>, obs: Seq<CertObservation>) -> bool
    decreases obs.len(),
{
    obs.len() == 0 || (fold_fits(m, obs.drop_last()) && counts_fit(
        ledger_fold(m, obs.drop_last()),
        obs.last(),
    ))
}

/// The observations of the observation-batch events, in order.
pub open spec fn batch_observations(events: Seq<SignedEvent>) -> Seq<CertObservation>
    decreases events.len(),
{
    if events.len() == 0 {
        Seq::empty()
    } else {
        batch_observations(events.drop_last()) + event_observations(events.last())
    }
}

/// The observations an event carries (none unless it is a batch).
pub open spec fn event_observations(e: SignedEvent) -> Seq<CertObservation> {
    match e.payload {
        EventPayload::CertObservationBatch { observations } => observations@,
        _ => Seq::empty(),
    }
}

proof fn lemma_batch_step(s: Seq<SignedEvent>, i: int)
    requires
        0 <= i < s.len(),
    ensures
        batch_observations(s.take(i + 1)) == batch_observations(s.take(i)) + event_observations(
            s[i],
        ),
        batch_observations(s.take(i + 1)).len() <= batch_observations(s).len(),
        batch_observations(s).take(batch_observations(s.take(i + 1)).len() as int)
            == batch_observations(s.take(i + 1)),
{
    assert(s.take(i + 1).drop_last() =~= s.take(i));
    lemma_batch_prefix(s, i + 1);
}

proof fn lemma_fold_step(
    all: Seq<CertObservation>,
    done: Seq<CertObservation>,
    obs: Seq<CertObservation>,
    k: int,
)
    requires
        fold_fits(Map::empty(), all),
        (done + obs).len() <= all.len(),
        all.take((done + obs).len() as int) == done + obs,
        0 <= k < obs.len(),
    ensures
        counts_fit(ledger_fold(Map::empty(), done + obs.take(k)), obs[k]),
        ledger_fold(Map::empty(), done + obs.take(k + 1)) == ledger_after(
            ledger_fold(Map::empty(), done + obs.take(k)),
            obs[k],
        ),
{
    let p = done + obs.take(k);
    let n = p.len() + 1;
    lemma_fold_fits_prefix(Map::empty(), all, n as int);
    assert(all.take(n as int) =~= (done + obs).take(n as int));
    assert((done + obs).take(n as int) =~= p.push(obs[k]));
    assert(p.push(obs[k]).drop_last() =~= p);
    assert(done + obs.take(k + 1) =~= p.push(obs[k]));
}

proof fn lemma_fold_fits_prefix(m: Map<Seq<char>, DomainView>, s: Seq<CertObservation>, n: int)
    requires
        fold_fits(m, s),
        0 <= n <= s.len(),
    ensures
        fold_fits(m, s.take(n)),
    decreases s.len(),
{
    if n == s.len() {
        assert(s.take(n) =~= s);
    } else {
        assert(s.drop_last().take(n) =~= s.take(n));
        lemma_fold_fits_prefix(m, s.drop_last(), n);
    }
}

proof fn lemma_batch_prefix(s: Seq<SignedEvent>, a: int)
    requires
        0 <= a <= s.len(),
    ensures
        batch_observations(s.take(a)).len() <= batch_observations(s).len(),
        batch_observations(s).take(batch_observations(s.take(a)).len() as int)
            == batch_observations(s.take(a)),
    decreases s.len(),
{
    if a == s.len() {
        assert(s.take(a) =~= s);
        assert(batch_observations(s).take(batch_observations(s).len() as int)
            =~= batch_observations(s));
    } else {
        assert(s.drop_last().take(a) =~= s.take(a));
        lemma_batch_prefix(s.drop_last(), a);
        let l = batch_observations(s.take(a)).len() as int;
        assert(batch_observations(s).take(l) =~= batch_observations(s.drop_last()).take(l));
    }
}

// ---------------------------------------------------------------------
// Executable rules
// ---------------------------------------------------------------------

fn clone_strings(v: &Vec<String>) -> (r: Vec<String>)
    ensures
        r@ == v@,
{
    let mut r: Vec<String> = Vec::new();
    let mut i: usize = 0;
    while i < v.len()
        invariant
            i <= v@.len(),
            r@ == v@.take(i as int),
        decreases v@.len() - i,
    {
        r.push(v[i].clone());
        i = i + 1;
        assert(r@ =~= v@.take(i as int));
    }
    assert(r@ =~= v@);
    r
}

/// First anomaly with fingerprint `fp`, or the number of anomalies.
fn find_anomaly_exec(a: &Vec<Anomaly>, fp: &str) -> (j: usize)
    ensures
        j == find_anomaly(a@.map_values(|x: Anomaly| x@), fp@, 0),
        j <= a@.len(),
{
    let ghost av = a@.map_values(|x: Anomaly| x@);
    let mut i: usize = 0;
    while i < a.len()
        invariant
            i <= a@.len(),
            av == a@.map_values(|x: Anomaly| x@),
            find_anomaly(av, fp@, 0) == find_anomaly(av, fp@, i as int),
        decreases a@.len() - i,
    {
        if str_eq(a[i].fingerprint.as_str(), fp) {
            return i;
        }
        i = i + 1;
    }
    i
}

/// Keep the anomalies whose fingerprint is not `fp`.
fn drop_fingerprint(a: Vec<Anomaly>, fp: &str) -> (r: Vec<Anomaly>)
    ensures
        r@.map_values(|x: Anomaly| x@) == without_fp(a@.map_values(|x: Anomaly| x@), fp@),
{
    let ghost av = a@.map_values(|x: Anomaly| x@);
    let mut r: Vec<Anomaly> = Vec::new();
    let mut i: usize = 0;
    while i < a.len()
        invariant
            i <= a@.len(),
            av == a@.map_values(|x: Anomaly| x@),
            r@.map_values(|x: Anomaly| x@) == without_fp(av.take(i as int), fp@),
        decreases a@.len() - i,
    {
        let ghost t = av.take(i + 1);
        assert(t.drop_last() =~= av.take(i as int));
        if !str_eq(a[i].fingerprint.as_str(), fp) {
            let x = a[i].clone();
            r.push(x);
            assert(r@.map_values(|x: Anomaly| x@) =~= without_fp(av.take(i as int), fp@).push(
                av[i as int],
            ));
        }
        i = i + 1;
    }
    assert(av.take(a@.len() as int) =~= av);
    r
}

impl Clone for Anomaly {
    fn clone(&self) -> (r: Anomaly)
        ensures
            r@ == self@,
    {
        Anomaly {
            fingerprint: self.fingerprint.clone(),
            issuer: self.issuer.clone(),
            observer_count: self.observer_count,
            first_seen: self.first_seen,
            last_seen: self.last_seen,
            status: self.status,
        }
    }
}

impl Clone for HistoryEntry {
    fn clone(&self) -> (r: HistoryEntry)
        ensures
            r@ == self@,
    {
        HistoryEntry {
            fingerprint: self.fingerprint.clone(),
            issuer: self.issuer.clone(),
            first_seen: self.first_seen,
            last_seen: self.last_seen,
            rotation_type: self.rotation_type,
        }
    }
}

impl Clone for ConsensusCert {
    fn clone(&self) -> (r: ConsensusCert)
        ensures
            r@ == self@,
    {
        ConsensusCert {
            fingerprint: self.fingerprint.clone(),
            chain_fps: clone_strings(&self.chain_fps),
            issuer: self.issuer.clone(),
            not_before: self.not_before,
            not_after: self.not_after,
            first_seen: self.first_seen,
            last_seen: self.last_seen,
            total_obs: self.total_obs,
            unique_observers: self.unique_observers,
        }
    }
}

impl Clone for DomainEntry {
    fn clone(&self) -> (r: DomainEntry)
        ensures
            r@ == self@,
            r.domain@ == self.domain@,
    {
        let mut history: Vec<HistoryEntry> = Vec::new();
        let mut i: usize = 0;
        while i < self.history.len()
            invariant
                i <= self.history@.len(),
                history@.len() == i,
                forall|j: int| 0 <= j < i ==> (#[trigger] history@[j])@ == self.history@[j]@,
            decreases self.history@.len() - i,
        {
            history.push(self.history[i].clone());
            i = i + 1;
        }
        let mut anomalies: Vec<Anomaly> = Vec::new();
        let mut k: usize = 0;
        while k < self.anomalies.len()
            invariant
                k <= self.anomalies@.len(),
                anomalies@.len() == k,
                forall|j: int| 0 <= j < k ==> (#[trigger] anomalies@[j])@ == self.anomalies@[j]@,
            decreases self.anomalies@.len() - k,
        {
            anomalies.push(self.anomalies[k].clone());
            k = k + 1;
        }
        assert(history@.map_values(|h: HistoryEntry| h@) =~= self.history@.map_values(
            |h: HistoryEntry| h@,
        ));
        assert(anomalies@.map_values(|a: Anomaly| a@) =~= self.anomalies@.map_values(
            |a: Anomaly| a@,
        ));
        DomainEntry {
            domain: self.domain.clone(),
            consensus_cert: self.consensus_cert.clone(),
            history,
            anomalies,
        }
    }
}

impl Clone for CertificateLedger {
    fn clone(&self) -> (r: Self)
        ensures
            r@ == self@,
    {
        proof {
            use_type_invariant(self);
        }
        let mut entries: Vec<DomainEntry> = Vec::new();
        let mut i: usize = 0;
        while i < self.entries.len()
            invariant
                i <= self.entries@.len(),
                unique_domains(self.entries@),
                entries@.len() == i,
                forall|j: int|
                    0 <= j < i ==> (#[trigger] entries@[j])@ == self.entries@[j]@
                        && entries@[j].domain@ == self.entries@[j].domain@,
            decreases self.entries@.len() - i,
        {
            entries.push(self.entries[i].clone());
            i = i + 1;
        }
        let ghost e = self.entries@;
        proof {
            assert(unique_domains(entries@)) by {
                assert forall|a: int, b: int| 0 <= a < b < entries@.len() implies (
                #[trigger] entries@[a]).domain@ != (#[trigger] entries@[b]).domain@ by {
                    assert(e[a].domain@ != e[b].domain@);
                }
            }
            assert(domains_map(entries@) =~= domains_map(e)) by {
                assert forall|d: Seq<char>| #[trigger]
                    domains_map(entries@).contains_key(d) == domains_map(e).contains_key(d) by {
                    if has_domain(entries@, d) {
                        let j = choose|j: int| 0 <= j < entries@.len() && (#[trigger] entries@[j]).domain@ == d;
                        assert(e[j].domain@ == d);
                    }
                    if has_domain(e, d) {
                        let j = choose|j: int| 0 <= j < e.len() && (#[trigger] e[j]).domain@ == d;
                        assert(entries@[j].domain@ == d);
                    }
                }
                assert forall|d: Seq<char>| #[trigger]
                    domains_map(entries@).contains_key(d) implies domains_map(entries@)[d] == domains_map(e)[d] by {
                    let j = choose|j: int| 0 <= j < entries@.len() && (#[trigger] entries@[j]).domain@ == d;
                    lemma_domains_map_at(entries@, j);
                    lemma_domains_map_at(e, j);
                }
            }
        }
        CertificateLedger { entries }
    }
}

/// The entry for the first observation of a domain.
fn first_entry_exec(o: &CertObservation) -> (e: DomainEntry)
    ensures
        e@ == first_entry(*o),
{
    let t = o.observed_at.timestamp();
    let e = DomainEntry {
        domain: o.domain.clone(),
        consensus_cert: ConsensusCert {
            fingerprint: o.cert_fingerprint.clone(),
            chain_fps: clone_strings(&o.chain_fingerprints),
            issuer: o.issuer.clone(),
            not_before: o.not_before,
            not_after: o.not_after,
            first_seen: t,
            last_seen: t,
            total_obs: 1,
            unique_observers: 1,
        },
        history: Vec::new(),
        anomalies: Vec::new(),
    };
    assert(e@.history =~= Seq::<HistoryView>::empty());
    assert(e@.anomalies =~= Seq::<AnomalyView>::empty());
    e
}

/// The entry after one more observation of its domain.
fn next_entry_exec(e: DomainEntry, o: &CertObservation) -> (r: DomainEntry)
    requires
        e.domain@ == o.domain@,
        counts_fit(map![e.domain@ => e@], *o),
    ensures
        r@ == next_entry(e@, *o),
        r.domain@ == e.domain@,
{
    let ghost ev = e@;
    let mut e = e;
    let t = o.observed_at.timestamp();
    if str_eq(o.cert_fingerprint.as_str(), e.consensus_cert.fingerprint.as_str()) {
        e.consensus_cert.total_obs = e.consensus_cert.total_obs + 1;
        e.consensus_cert.last_seen = t;
        e.consensus_cert.unique_observers = e.consensus_cert.unique_observers + 1;
        return e;
    }
    let j = find_anomaly_exec(&e.anomalies, o.cert_fingerprint.as_str());
    if j < e.anomalies.len() {
        let mut a = e.anomalies.remove(j);
        a.observer_count = a.observer_count + 1;
        a.last_seen = t;
        let total = e.consensus_cert.unique_observers + a.observer_count;
        let promote = a.observer_count > total / 2;
        let first_seen = a.first_seen;
        let count = a.observer_count;
        e.anomalies.insert(j, a);
        proof {
            assert(e.anomalies@.map_values(|x: Anomaly| x@) =~= ev.anomalies.update(
                j as int,
                e.anomalies@[j as int]@,
            ));
        }
        if promote {
            let old = e.consensus_cert;
            e.history.push(
                HistoryEntry {
                    fingerprint: old.fingerprint,
                    issuer: old.issuer,
                    first_seen: old.first_seen,
                    last_seen: old.last_seen,
                    rotation_type: RotationType::Normal,
                },
            );
            e.consensus_cert = ConsensusCert {
                fingerprint: o.cert_fingerprint.clone(),
                chain_fps: clone_strings(&o.chain_fingerprints),
                issuer: o.issuer.clone(),
                not_before: o.not_before,
                not_after: o.not_after,
                first_seen,
                last_seen: t,
                total_obs: count,
                unique_observers: count,
            };
            let anomalies = e.anomalies;
            e.anomalies = drop_fingerprint(anomalies, o.cert_fingerprint.as_str());
            proof {
                assert(e@.history =~= ev.history.push(
                    HistoryView {
                        fingerprint: ev.consensus.fingerprint,
                        issuer: ev.consensus.issuer,
                        first_seen: ev.consensus.first_seen,
                        last_seen: ev.consensus.last_seen,
                        rotation_type: RotationType::Normal,
                    },
                ));
            }
        }
        e
    } else {
        e.anomalies.push(
            Anomaly {
                fingerprint: o.cert_fingerprint.clone(),
                issuer: o.issuer.clone(),
                observer_count: 1,
                first_seen: t,
                last_seen: t,
                status: AnomalyStatus::Active,
            },
        );
        proof {
            assert(e@.anomalies =~= ev.anomalies.push(e.anomalies@.last()@));
        }
        e
    }
}

fn find_domain_in(entries: &Vec<DomainEntry>, domain: &str) -> (r: Option<usize>)
    ensures
        match r {
            Some(i) => i < entries@.len() && entries@[i as int].domain@ == domain@,
            None => !has_domain(entries@, domain@),
        },
{
    let mut i: usize = 0;
    while i < entries.len()
        invariant
            i <= entries@.len(),
            forall|k: int| 0 <= k < i ==> (#[trigger] entries@[k]).domain@ != domain@,
        decreases entries@.len() - i,
    {
        if str_eq(entries[i].domain.as_str(), domain) {
            return Some(i);
        }
        i = i + 1;
    }
    None
}

impl CertificateLedger {
    #[verifier::type_invariant]
    spec fn inv(self) -> bool {
        unique_domains(self.entries@)
    }

    /// An empty ledger.
    pub fn new() -> (l: Self)
        ensures
            l@ == Map::<Seq<char>, DomainView>::empty(),
    {
        let l = CertificateLedger { entries: Vec::new() };
        assert(domains_map(l.entries@) =~= Map::<Seq<char>, DomainView>::empty());
        l
    }

    /// The entry for `domain`, if the ledger has one.
    pub fn lookup(&self, domain: &str) -> (r: Option<&DomainEntry>)
        ensures
            match r {
                Some(e) => self@.contains_key(domain@) && e@ == self@[domain@] && e.domain@
                    == domain@,
                None => !self@.contains_key(domain@),
            },
    {
        proof {
            use_type_invariant(self);
        }
        match find_domain_in(&self.entries, domain) {
            Some(i) => {
                proof {
                    lemma_domains_map_at(self.entries@, i as int);
                }
                Some(&self.entries[i])
            },
            None => None,
        }
    }

    /// Number of domains in the ledger.
    pub fn domain_count(&self) -> (n: usize)
        ensures
            n == self@.len(),
    {
        proof {
            use_type_invariant(self);
            lemma_domains_map_len(self.entries@);
        }
        self.entries.len()
    }

    /// The entries, one per domain, in no particular order.
    pub fn entries(&self) -> (e: &Vec<DomainEntry>)
        ensures
            domains_map(e@) == self@,
            unique_domains(e@),
    {
        proof {
            use_type_invariant(self);
        }
        &self.entries
    }

    /// Apply one observation to the ledger, by the consensus rules of
    /// `next_entry`.
    pub fn process_observation(&mut self, obs: &CertObservation)
        requires
            counts_fit(old(self)@, *obs),
        ensures
            final(self)@ == ledger_after(old(self)@, *obs),
    {
        proof {
            use_type_invariant(&*self);
        }
        let ghost old_e = self.entries@;
        let mut entries: Vec<DomainEntry> = Vec::new();
        core::mem::swap(&mut entries, &mut self.entries);
        let found = find_domain_in(&entries, obs.domain.as_str());
        match found {
            Some(i) => {
                proof {
                    lemma_domains_map_at(old_e, i as int);
                    assert(map![old_e[i as int].domain@ => old_e[i as int]@][obs.domain@]
                        == domains_map(old_e)[obs.domain@]);
                }
                let e = entries.remove(i);
                let e2 = next_entry_exec(e, obs);
                entries.insert(i, e2);
                proof {
                    let ne = entries@;
                    assert(ne == old_e.update(i as int, ne[i as int]));
                    assert(unique_domains(ne)) by {
                        assert forall|a: int, b: int| 0 <= a < b < ne.len() implies (
                        #[trigger] ne[a]).domain@ != (#[trigger] ne[b]).domain@ by {
                            assert(old_e[a].domain@ != old_e[b].domain@);
                        }
                    }
                    let target = ledger_after(domains_map(old_e), *obs);
                    assert(domains_map(ne) =~= target) by {
                        assert forall|d: Seq<char>| #[trigger]
                            domains_map(ne).contains_key(d) == target.contains_key(d) by {
                            if has_domain(ne, d) {
                                let j = choose|j: int| 0 <= j < ne.len() && (#[trigger] ne[j]).domain@ == d;
                                assert(old_e[j].domain@ == d);
                            }
                            if has_domain(old_e, d) {
                                let j = choose|j: int| 0 <= j < old_e.len() && (#[trigger] old_e[j]).domain@ == d;
                                assert(ne[j].domain@ == d);
                            }
                        }
                        assert forall|d: Seq<char>| #[trigger]
                            domains_map(ne).contains_key(d) implies domains_map(ne)[d] == target[d] by {
                            let j = choose|j: int| 0 <= j < ne.len() && (#[trigger] ne[j]).domain@ == d;
                            lemma_domains_map_at(ne, j);
                            if j != i {
                                lemma_domains_map_at(old_e, j);
                            }
                        }
                    }
                }
                self.entries = entries;
            },
            None => {
                let e = first_entry_exec(obs);
                entries.push(e);
                proof {
                    let ne = entries@;
                    assert(unique_domains(ne)) by {
                        assert forall|a: int, b: int| 0 <= a < b < ne.len() implies (
                        #[trigger] ne[a]).domain@ != (#[trigger] ne[b]).domain@ by {
                            if b == ne.len() - 1 {
                                assert(old_e[a].domain@ != obs.domain@);
                            } else {
                                assert(old_e[a].domain@ != old_e[b].domain@);
                            }
                        }
                    }
                    let target = ledger_after(domains_map(old_e), *obs);
                    assert(domains_map(ne) =~= target) by {
                        assert forall|d: Seq<char>| #[trigger]
                            domains_map(ne).contains_key(d) == target.contains_key(d) by {
                            if has_domain(ne, d) {
                                let j = choose|j: int| 0 <= j < ne.len() && (#[trigger] ne[j]).domain@ == d;
                                if j < old_e.len() {
                                    assert(old_e[j].domain@ == d);
                                }
                            }
                            if has_domain(old_e, d) {
                                let j = choose|j: int| 0 <= j < old_e.len() && (#[trigger] old_e[j]).domain@ == d;
                                assert(ne[j].domain@ == d);
                            }
                            if d == obs.domain@ {
                                assert(ne[ne.len() - 1].domain@ == d);
                            }
                        }
                        assert forall|d: Seq<char>| #[trigger]
                            domains_map(ne).contains_key(d) implies domains_map(ne)[d] == target[d] by {
                            let j = choose|j: int| 0 <= j < ne.len() && (#[trigger] ne[j]).domain@ == d;
                            lemma_domains_map_at(ne, j);
                            if j < old_e.len() {
                                lemma_domains_map_at(old_e, j);
                            }
                        }
                    }
                }
                self.entries = entries;
            },
        }
    }

    /// The ledger of a sequence of events: every observation of every
    /// observation batch, applied in order to an empty ledger.
    pub fn compute_from_events(events: &[SignedEvent]) -> (l: Self)
        requires
            fold_fits(Map::empty(), batch_observations(events@)),
        ensures
            l@ == ledger_fold(Map::empty(), batch_observations(events@)),
    {
        let ghost all = batch_observations(events@);
        let mut ledger = Self::new();
        let mut i: usize = 0;
        while i < events.len()
            invariant
                i <= events@.len(),
                all == batch_observations(events@),
                fold_fits(Map::empty(), all),
                ledger@ == ledger_fold(Map::empty(), batch_observations(events@.take(i as int))),
            decreases events@.len() - i,
        {
            let ghost done = batch_observations(events@.take(i as int));
            proof {
                lemma_batch_step(events@, i as int);
            }
            if let EventPayload::CertObservationBatch { observations } = &events[i].payload {
                let mut k: usize = 0;
                proof {
                    assert(done + observations@.take(0) =~= done);
                }
                while k < observations.len()
                    invariant
                        k <= observations@.len(),
                        fold_fits(Map::empty(), all),
                        (done + observations@).len() <= all.len(),
                        all.take((done + observations@).len() as int) == done + observations@,
                        ledger@ == ledger_fold(Map::empty(), done + observations@.take(k as int)),
                    decreases observations@.len() - k,
                {
                    proof {
                        lemma_fold_step(all, done, observations@, k as int);
                    }
                    ledger.process_observation(&observations[k]);
                    k = k + 1;
                }
                proof {
                    assert(observations@.take(observations@.len() as int) =~= observations@);
                }
            } else {
                proof {
                    assert(done + event_observations(events@[i as int]) =~= done);
                }
            }
            i = i + 1;
        }
        proof {
            assert(events@.take(events@.len() as int) =~= events@);
        }
        ledger
    }
}

// ---------------------------------------------------------------------
// Laws
// ---------------------------------------------------------------------

/// No two anomalies share a fingerprint.
pub open spec fn distinct_fps(a: Seq<AnomalyView>) -> bool {
    forall|i: int, j: int|
        0 <= i < j < a.len() ==> (#[trigger] a[i]).fingerprint != (#[trigger] a[j]).fingerprint
}

/// A well-formed ledger: each entry is filed under its own domain, its
/// anomalies have distinct fingerprints and none has the consensus
/// fingerprint.
pub open spec fn ledger_wf(m: Map<Seq<char>, DomainView>) -> bool {
    forall|d: Seq<char>|
        #[trigger] m.contains_key(d) ==> {
            &&& m[d].domain == d
            &&& distinct_fps(m[d].anomalies)
            &&& forall|j: int|
                0 <= j < m[d].anomalies.len() ==> (#[trigger] m[d].anomalies[j]).fingerprint
                    != m[d].consensus.fingerprint
        }
}

/// Every count of the ledger is at most `k`.
pub open spec fn counts_at_most(m: Map<Seq<char>, DomainView>, k: int) -> bool {
    forall|d: Seq<char>|
        #[trigger] m.contains_key(d) ==> {
            &&& m[d].consensus.total_obs <= k
            &&& m[d].consensus.unique_observers <= k
            &&& forall|j: int|
                0 <= j < m[d].anomalies.len() ==> (#[trigger] m[d].anomalies[j]).observer_count
                    <= k
        }
}

proof fn lemma_without_fp(a: Seq<AnomalyView>, fp: Seq<char>)
    ensures
        forall|k: int|
            0 <= k < without_fp(a, fp).len() ==> (#[trigger] without_fp(a, fp)[k]).fingerprint
                != fp,
        forall|k: int|
            0 <= k < without_fp(a, fp).len() ==> exists|i: int|
                0 <= i < a.len() && a[i] == #[trigger] without_fp(a, fp)[k],
        distinct_fps(a) ==> distinct_fps(without_fp(a, fp)),
    decreases a.len(),
{
    if a.len() > 0 {
        let p = a.drop_last();
        lemma_without_fp(p, fp);
        let r = without_fp(p, fp);
        assert forall|k: int| 0 <= k < r.len() implies exists|i: int|
            0 <= i < a.len() && a[i] == #[trigger] r[k] by {
            let i = choose|i: int| 0 <= i < p.len() && p[i] == r[k];
            assert(a[i] == r[k]);
        }
        if a.last().fingerprint != fp {
            let r2 = r.push(a.last());
            assert(r2 == without_fp(a, fp));
            assert forall|k: int| 0 <= k < r2.len() implies exists|i: int|
                0 <= i < a.len() && a[i] == #[trigger] r2[k] by {
                if k == r.len() {
                    assert(a[a.len() - 1] == r2[k]);
                } else {
                    assert(r2[k] == r[k]);
                }
            }
            if distinct_fps(a) {
                assert(distinct_fps(p)) by {
                    assert forall|x: int, y: int| 0 <= x < y < p.len() implies (
                    #[trigger] p[x]).fingerprint != (#[trigger] p[y]).fingerprint by {
                        assert(a[x].fingerprint != a[y].fingerprint);
                    }
                }
                assert forall|x: int, y: int| 0 <= x < y < r2.len() implies (
                #[trigger] r2[x]).fingerprint != (#[trigger] r2[y]).fingerprint by {
                    if y == r.len() {
                        let i = choose|i: int| 0 <= i < p.len() && p[i] == r[x];
                        assert(a[i].fingerprint != a[a.len() - 1].fingerprint);
                    } else {
                        assert(r2[x] == r[x] && r2[y] == r[y]);
                    }
                }
            }
        } else {
            if distinct_fps(a) {
                assert(distinct_fps(p)) by {
                    assert forall|x: int, y: int| 0 <= x < y < p.len() implies (
                    #[trigger] p[x]).fingerprint != (#[trigger] p[y]).fingerprint by {
                        assert(a[x].fingerprint != a[y].fingerprint);
                    }
                }
            }
        }
    }
}

proof fn lemma_find_anomaly(a: Seq<AnomalyView>, fp: Seq<char>, i: int)
    requires
        0 <= i <= a.len(),
    ensures
        i <= find_anomaly(a, fp, i) <= a.len(),
        find_anomaly(a, fp, i) < a.len() ==> a[find_anomaly(a, fp, i)].fingerprint == fp,
        forall|k: int| i <= k < find_anomaly(a, fp, i) ==> (#[trigger] a[k]).fingerprint != fp,
    decreases a.len() - i,
{
    if i < a.len() && a[i].fingerprint != fp {
        lemma_find_anomaly(a, fp, i + 1);
    }
}

/// One observation changes only the entry of its own domain.
pub proof fn lemma_other_domains_unchanged(
    m: Map<Seq<char>, DomainView>,
    o: CertObservation,
    d: Seq<char>,
)
    requires
        d != o.domain@,
    ensures
        ledger_after(m, o).contains_key(d) == m.contains_key(d),
        m.contains_key(d) ==> ledger_after(m, o)[d] == m[d],
{
}

/// The domains of a ledger built from observations are exactly the
/// domains observed.
pub proof fn lemma_fold_domains(obs: Seq<CertObservation>)
    ensures
        forall|d: Seq<char>|
            #[trigger] ledger_fold(Map::empty(), obs).contains_key(d) <==> exists|i: int|
                0 <= i < obs.len() && (#[trigger] obs[i]).domain@ == d,
    decreases obs.len(),
{
    if obs.len() > 0 {
        let p = obs.drop_last();
        lemma_fold_domains(p);
        assert forall|d: Seq<char>|
            #[trigger] ledger_fold(Map::empty(), obs).contains_key(d) <==> exists|i: int|
                0 <= i < obs.len() && (#[trigger] obs[i]).domain@ == d by {
            if ledger_fold(Map::empty(), p).contains_key(d) {
                let i = choose|i: int| 0 <= i < p.len() && (#[trigger] p[i]).domain@ == d;
                assert(obs[i].domain@ == d);
            }
            if exists|i: int| 0 <= i < obs.len() && (#[trigger] obs[i]).domain@ == d {
                let i = choose|i: int| 0 <= i < obs.len() && (#[trigger] obs[i]).domain@ == d;
                if i < p.len() {
                    assert(p[i].domain@ == d);
                }
            }
        }
    }
}

/// Every observation keeps a ledger well formed: entries stay under their
/// domain, anomaly fingerprints stay distinct and never equal the
/// consensus.
pub proof fn lemma_ledger_after_wf(m: Map<Seq<char>, DomainView>, o: CertObservation)
    requires
        ledger_wf(m),
    ensures
        ledger_wf(ledger_after(m, o)),
{
    let d = o.domain@;
    let fp = o.cert_fingerprint@;
    let r = ledger_after(m, o);
    if m.contains_key(d) {
        let e = m[d];
        let ne = next_entry(e, o);
        let c = e.consensus;
        if fp != c.fingerprint {
            let j = find_anomaly(e.anomalies, fp, 0);
            lemma_find_anomaly(e.anomalies, fp, 0);
            if j < e.anomalies.len() {
                let a = e.anomalies[j];
                let a2 = AnomalyView { observer_count: (a.observer_count + 1) as u32, last_seen: o.observed_at@.0, ..a };
                let u = e.anomalies.update(j, a2);
                assert(distinct_fps(u)) by {
                    assert forall|x: int, y: int| 0 <= x < y < u.len() implies (
                    #[trigger] u[x]).fingerprint != (#[trigger] u[y]).fingerprint by {
                        assert(e.anomalies[x].fingerprint != e.anomalies[y].fingerprint);
                    }
                }
                lemma_without_fp(u, fp);
                let total = c.unique_observers + a2.observer_count;
                if !(a2.observer_count > total / 2) {
                    assert forall|k: int| 0 <= k < u.len() implies (#[trigger] u[k]).fingerprint
                        != c.fingerprint by {
                        assert(e.anomalies[k].fingerprint != c.fingerprint);
                    }
                }
            } else {
                let na = ne.anomalies;
                assert(distinct_fps(na)) by {
                    assert forall|x: int, y: int| 0 <= x < y < na.len() implies (
                    #[trigger] na[x]).fingerprint != (#[trigger] na[y]).fingerprint by {
                        if y == na.len() - 1 {
                            assert(e.anomalies[x].fingerprint != fp);
                        } else {
                            assert(e.anomalies[x].fingerprint != e.anomalies[y].fingerprint);
                        }
                    }
                }
                assert forall|k: int| 0 <= k < na.len() implies (#[trigger] na[k]).fingerprint
                    != ne.consensus.fingerprint by {
                    if k < e.anomalies.len() {
                        assert(e.anomalies[k].fingerprint != c.fingerprint);
                    }
                }
            }
        }
        assert forall|x: Seq<char>| #[trigger] r.contains_key(x) implies {
            &&& r[x].domain == x
            &&& distinct_fps(r[x].anomalies)
            &&& forall|j: int|
                0 <= j < r[x].anomalies.len() ==> (#[trigger] r[x].anomalies[j]).fingerprint
                    != r[x].consensus.fingerprint
        } by {
            if x != d {
                assert(r[x] == m[x]);
            }
        }
    } else {
        assert forall|x: Seq<char>| #[trigger] r.contains_key(x) implies {
            &&& r[x].domain == x
            &&& distinct_fps(r[x].anomalies)
            &&& forall|j: int|
                0 <= j < r[x].anomalies.len() ==> (#[trigger] r[x].anomalies[j]).fingerprint
                    != r[x].consensus.fingerprint
        } by {
            if x != d {
                assert(r[x] == m[x]);
            }
        }
    }
}

/// The first observation of a domain makes it an entry whose consensus is
/// the observed certificate, seen once by one observer, with no history
/// and no anomalies.
pub proof fn lemma_first_observation(m: Map<Seq<char>, DomainView>, o: CertObservation)
    requires
        !m.contains_key(o.domain@),
    ensures
        ({
            let e = ledger_after(m, o)[o.domain@];
            &&& ledger_after(m, o).contains_key(o.domain@)
            &&& e.domain == o.domain@
            &&& e.consensus.fingerprint == o.cert_fingerprint@
            &&& e.consensus.issuer == o.issuer@
            &&& e.consensus.total_obs == 1
            &&& e.consensus.unique_observers == 1
            &&& e.consensus.first_seen == o.observed_at@.0
            &&& e.consensus.last_seen == o.observed_at@.0
            &&& e.history.len() == 0
            &&& e.anomalies.len() == 0
        }),
{
}

/// An observation that matches a domain's consensus only counts: one more
/// observation and observer, seen last now; the consensus certificate,
/// the history and the anomalies stay as they were.
pub proof fn lemma_matching_observation(m: Map<Seq<char>, DomainView>, o: CertObservation)
    requires
        m.contains_key(o.domain@),
        m[o.domain@].consensus.fingerprint == o.cert_fingerprint@,
        counts_fit(m, o),
    ensures
        ({
            let old = m[o.domain@];
            let e = ledger_after(m, o)[o.domain@];
            &&& e.domain == old.domain
            &&& e.consensus.fingerprint == old.consensus.fingerprint
            &&& e.consensus.issuer == old.consensus.issuer
            &&& e.consensus.first_seen == old.consensus.first_seen
            &&& e.consensus.total_obs == old.consensus.total_obs + 1
            &&& e.consensus.unique_observers == old.consensus.unique_observers + 1
            &&& e.consensus.last_seen == o.observed_at@.0
            &&& e.history == old.history
            &&& e.anomalies == old.anomalies
        }),
{
}

/// A certificate that differs from the consensus and from every recorded
/// anomaly becomes a new active anomaly, seen by one observer, after the
/// others; the consensus and the history stay.
pub proof fn lemma_new_anomaly(m: Map<Seq<char>, DomainView>, o: CertObservation)
    requires
        m.contains_key(o.domain@),
        m[o.domain@].consensus.fingerprint != o.cert_fingerprint@,
        forall|k: int|
            0 <= k < m[o.domain@].anomalies.len() ==> (#[trigger] m[o.domain@].anomalies[k]).fingerprint
                != o.cert_fingerprint@,
    ensures
        ({
            let old = m[o.domain@];
            let e = ledger_after(m, o)[o.domain@];
            let x = e.anomalies.last();
            &&& e.consensus == old.consensus
            &&& e.history == old.history
            &&& e.anomalies == old.anomalies.push(x)
            &&& x.fingerprint == o.cert_fingerprint@
            &&& x.issuer == o.issuer@
            &&& x.observer_count == 1
            &&& x.status is Active
            &&& x.first_seen == o.observed_at@.0
            &&& x.last_seen == o.observed_at@.0
        }),
{
    let a = m[o.domain@].anomalies;
    lemma_find_anomaly(a, o.cert_fingerprint@, 0);
}

/// A certificate already recorded as anomaly `j` gains an observer. Once
/// its observers outnumber the consensus's, it becomes the consensus (seen
/// by its observers), the old consensus goes to the history as a normal
/// rotation, and it leaves the anomalies while the others stay; until
/// then the consensus and the history stay and only that anomaly changes.
pub proof fn lemma_known_anomaly(m: Map<Seq<char>, DomainView>, o: CertObservation, j: int)
    requires
        ledger_wf(m),
        m.contains_key(o.domain@),
        0 <= j < m[o.domain@].anomalies.len(),
        m[o.domain@].anomalies[j].fingerprint == o.cert_fingerprint@,
        counts_fit(m, o),
    ensures
        ({
            let old = m[o.domain@];
            let c = old.consensus;
            let n = old.anomalies[j].observer_count + 1;
            let e = ledger_after(m, o)[o.domain@];
            let fp = o.cert_fingerprint@;
            if n > c.unique_observers {
                &&& e.consensus.fingerprint == fp
                &&& e.consensus.issuer == o.issuer@
                &&& e.consensus.total_obs == n
                &&& e.consensus.unique_observers == n
                &&& e.consensus.first_seen == old.anomalies[j].first_seen
                &&& e.consensus.last_seen == o.observed_at@.0
                &&& e.history.len() == old.history.len() + 1
                &&& e.history.drop_last() == old.history
                &&& e.history.last().fingerprint == c.fingerprint
                &&& e.history.last().issuer == c.issuer
                &&& e.history.last().rotation_type is Normal
                &&& forall|k: int| 0 <= k < e.anomalies.len() ==> (#[trigger] e.anomalies[k]).fingerprint != fp
                &&& forall|k: int|
                    0 <= k < old.anomalies.len() && k != j ==> e.anomalies.contains(
                        #[trigger] old.anomalies[k],
                    )
            } else {
                &&& e.consensus == c
                &&& e.history == old.history
                &&& e.anomalies.len() == old.anomalies.len()
                &&& e.anomalies[j].fingerprint == fp
                &&& e.anomalies[j].observer_count == n
                &&& e.anomalies[j].last_seen == o.observed_at@.0
                &&& e.anomalies[j].status == old.anomalies[j].status
                &&& forall|k: int|
                    0 <= k < old.anomalies.len() && k != j ==> #[trigger] e.anomalies[k] == old.anomalies[k]
            }
        }),
{
    let old = m[o.domain@];
    let a = old.anomalies;
    let fp = o.cert_fingerprint@;
    lemma_find_anomaly(a, fp, 0);
    let i = find_anomaly(a, fp, 0);
    assert(i == j) by {
        if i < j {
            assert(a[i].fingerprint != a[j].fingerprint);
        } else if i > j {
            assert(a[j].fingerprint != fp);
        }
    }
    assert(old.consensus.fingerprint != fp);
    let c = old.consensus;
    let n = a[j].observer_count + 1;
    assert((n > (c.unique_observers + n) / 2) <==> n > c.unique_observers);
    if n > c.unique_observers {
        let a2 = AnomalyView { observer_count: n as u32, last_seen: o.observed_at@.0, ..a[j] };
        let u = a.update(j, a2);
        lemma_without_fp_keeps(u, fp);
        assert forall|k: int| 0 <= k < a.len() && k != j implies without_fp(u, fp).contains(
            #[trigger] a[k],
        ) by {
            assert(u[k] == a[k]);
            assert(a[k].fingerprint != a[j].fingerprint) by {
                if k < j {
                    assert(a[k].fingerprint != a[j].fingerprint);
                } else {
                    assert(a[j].fingerprint != a[k].fingerprint);
                }
            }
        }
    }
}

/// Dropping the anomalies of one fingerprint keeps every other one.
proof fn lemma_without_fp_keeps(a: Seq<AnomalyView>, fp: Seq<char>)
    ensures
        forall|k: int| 0 <= k < without_fp(a, fp).len() ==> (#[trigger] without_fp(a, fp)[k]).fingerprint != fp,
        forall|k: int| 0 <= k < a.len() && a[k].fingerprint != fp ==> without_fp(a, fp).contains(#[trigger] a[k]),
    decreases a.len(),
{
    lemma_without_fp(a, fp);
    if a.len() > 0 {
        let p = a.drop_last();
        lemma_without_fp_keeps(p, fp);
        let r = without_fp(p, fp);
        assert forall|k: int| 0 <= k < a.len() && a[k].fingerprint != fp implies without_fp(a, fp).contains(
            #[trigger] a[k],
        ) by {
            if k < p.len() {
                assert(p[k] == a[k]);
                let q = choose|q: int| 0 <= q < r.len() && r[q] == p[k];
                if a.last().fingerprint == fp {
                    assert(without_fp(a, fp)[q] == a[k]);
                } else {
                    assert(without_fp(a, fp)[q] == a[k]);
                }
            } else {
                assert(without_fp(a, fp)[r.len() as int] == a[k]);
            }
        }
    }
}

/// Every consensus of the ledger has been observed at least once.
pub open spec fn consensus_seen(m: Map<Seq<char>, DomainView>) -> bool {
    forall|d: Seq<char>| #[trigger] m.contains_key(d) ==> m[d].consensus.total_obs >= 1
}

/// After an observation the ledger has an entry for its domain; where its
/// counts do not overflow, every consensus stays one that was observed.
pub proof fn lemma_observation_gives_entry(m: Map<Seq<char>, DomainView>, o: CertObservation)
    requires
        consensus_seen(m),
        counts_fit(m, o),
    ensures
        ledger_after(m, o).contains_key(o.domain@),
        consensus_seen(ledger_after(m, o)),
{
    let r = ledger_after(m, o);
    assert forall|x: Seq<char>| #[trigger] r.contains_key(x) implies r[x].consensus.total_obs >= 1 by {
        if x != o.domain@ {
            assert(r[x] == m[x]);
        }
    }
}

/// A ledger built from observations whose counts never overflow has an
/// entry for each domain observed, and every consensus in it was observed.
pub proof fn lemma_fold_seen(obs: Seq<CertObservation>)
    requires
        fold_fits(Map::empty(), obs),
    ensures
        consensus_seen(ledger_fold(Map::empty(), obs)),
        forall|i: int| 0 <= i < obs.len() ==> ledger_fold(Map::empty(), obs).contains_key(#[trigger] obs[i].domain@),
    decreases obs.len(),
{
    lemma_fold_domains(obs);
    if obs.len() > 0 {
        lemma_fold_seen(obs.drop_last());
        lemma_observation_gives_entry(ledger_fold(Map::empty(), obs.drop_last()), obs.last());
    }
    assert forall|i: int| 0 <= i < obs.len() implies ledger_fold(Map::empty(), obs).contains_key(#[trigger] obs[i].domain@) by {
        assert(obs[i].domain@ == obs[i].domain@);
    }
}

/// A ledger built from observations is well formed.
pub proof fn lemma_fold_wf(obs: Seq<CertObservation>)
    ensures
        ledger_wf(ledger_fold(Map::empty(), obs)),
    decreases obs.len(),
{
    if obs.len() > 0 {
        lemma_fold_wf(obs.drop_last());
        lemma_ledger_after_wf(ledger_fold(Map::empty(), obs.drop_last()), obs.last());
    }
}

proof fn lemma_counts_step(m: Map<Seq<char>, DomainView>, o: CertObservation, k: int)
    requires
        counts_at_most(m, k),
        0 <= k,
        2 * k + 1 <= u32::MAX,
    ensures
        counts_fit(m, o),
        counts_at_most(ledger_after(m, o), k + 1),
{
    let d = o.domain@;
    let fp = o.cert_fingerprint@;
    let r = ledger_after(m, o);
    if m.contains_key(d) {
        let e = m[d];
        let c = e.consensus;
        if fp != c.fingerprint {
            let j = find_anomaly(e.anomalies, fp, 0);
            lemma_find_anomaly(e.anomalies, fp, 0);
            if j < e.anomalies.len() {
                let a = e.anomalies[j];
                assert(a.observer_count <= k);
                let a2 = AnomalyView { observer_count: (a.observer_count + 1) as u32, last_seen: o.observed_at@.0, ..a };
                let u = e.anomalies.update(j, a2);
                lemma_without_fp(u, fp);
                let w = without_fp(u, fp);
                assert forall|i: int| 0 <= i < w.len() implies (#[trigger] w[i]).observer_count
                    <= k + 1 by {
                    let t = choose|t: int| 0 <= t < u.len() && u[t] == w[i];
                    if t != j {
                        assert(e.anomalies[t].observer_count <= k);
                    }
                }
                assert forall|i: int| 0 <= i < u.len() implies (#[trigger] u[i]).observer_count
                    <= k + 1 by {
                    if i != j {
                        assert(e.anomalies[i].observer_count <= k);
                    }
                }
            } else {
                let na = next_entry(e, o).anomalies;
                assert forall|i: int| 0 <= i < na.len() implies (#[trigger] na[i]).observer_count
                    <= k + 1 by {
                    if i < e.anomalies.len() {
                        assert(e.anomalies[i].observer_count <= k);
                    }
                }
            }
        }
        assert forall|x: Seq<char>| #[trigger] r.contains_key(x) implies {
            &&& r[x].consensus.total_obs <= k + 1
            &&& r[x].consensus.unique_observers <= k + 1
            &&& forall|j: int|
                0 <= j < r[x].anomalies.len() ==> (#[trigger] r[x].anomalies[j]).observer_count
                    <= k + 1
        } by {
            if x != d {
                assert(r[x] == m[x]);
                assert forall|j: int| 0 <= j < r[x].anomalies.len() implies (
                #[trigger] r[x].anomalies[j]).observer_count <= k + 1 by {
                    assert(m[x].anomalies[j].observer_count <= k);
                }
            }
        }
    } else {
        assert forall|x: Seq<char>| #[trigger] r.contains_key(x) implies {
            &&& r[x].consensus.total_obs <= k + 1
            &&& r[x].consensus.unique_observers <= k + 1
            &&& forall|j: int|
                0 <= j < r[x].anomalies.len() ==> (#[trigger] r[x].anomalies[j]).observer_count
                    <= k + 1
        } by {
            if x != d {
                assert(r[x] == m[x]);
                assert forall|j: int| 0 <= j < r[x].anomalies.len() implies (
                #[trigger] r[x].anomalies[j]).observer_count <= k + 1 by {
                    assert(m[x].anomalies[j].observer_count <= k);
                }
            }
        }
    }
}

proof fn lemma_fold_counts(obs: Seq<CertObservation>)
    requires
        2 * obs.len() + 1 <= u32::MAX,
    ensures
        fold_fits(Map::empty(), obs),
        counts_at_most(ledger_fold(Map::empty(), obs), obs.len() as int),
    decreases obs.len(),
{
    if obs.len() > 0 {
        let p = obs.drop_last();
        lemma_fold_counts(p);
        lemma_counts_step(ledger_fold(Map::empty(), p), obs.last(), p.len() as int);
    }
}

/// No count can overflow while a ledger is built from fewer than 2^31
/// observations: then the events' ledger can always be computed.
pub proof fn lemma_small_batches_fit(events: Seq<SignedEvent>)
    requires
        batch_observations(events).len() < 0x8000_0000,
    ensures
        fold_fits(Map::empty(), batch_observations(events)),
{
    lemma_fold_counts(batch_observations(events));
}

} // verus!
