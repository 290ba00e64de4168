//! Alerts: how an observed certificate compares with what others see.
use vstd::prelude::*;
use vstd::string::StringExecFns;

use crate::ledger::{ledger_wf, AnomalyStatus, AnomalyView, CertificateLedger, DomainEntry, DomainView};
use crate::num::{decimal, push_decimal};
use crate::observation::CertObservation;
use crate::strmap::str_eq;
use crate::text::{byte_prefix, byte_prefix_checked, byte_prefix_ok, str_byte_prefix};
use crate::time::{ts_before, Timestamp};

verus! {

/// How far an observed certificate can be trusted.
#[derive(Debug, Clone, Copy, PartialEq, Eq, Structural)]
pub enum AlertLevel {
    /// The certificate matches the network consensus.
    Verified,
    /// The network knows nothing of the domain.
    Unverified,
    /// It differs from the consensus, but a significant minority also
    /// reports it.
    Uncertain,
    /// Very few or no other nodes report it: likely a targeted attack.
    TargetedAttack,
    /// Nobody else has reported it.
    NovelDivergence,
}

/// A confidence value, `num / den`.
#[derive(Debug, Clone, Copy, PartialEq, Eq, Structural)]
pub struct Confidence {
    pub num: u64,
    pub den: u64,
}

/// The outcome of checking an observation.
#[derive(Debug)]
pub struct AlertResult {
    pub domain: String,
    pub level: AlertLevel,
    pub my_fingerprint: String,
    pub consensus_fingerprint: Option<String>,
    pub confidence: Confidence,
    pub observer_count: u32,
    pub message: String,
}

impl Clone for AlertResult {
    fn clone(&self) -> (r: Self)
        ensures
            r == *self,
    {
        AlertResult {
            domain: self.domain.clone(),
            level: self.level,
            my_fingerprint: self.my_fingerprint.clone(),
            consensus_fingerprint: match &self.consensus_fingerprint {
                Some(c) => Some(c.clone()),
                None => None,
            },
            confidence: self.confidence,
            observer_count: self.observer_count,
            message: self.message.clone(),
        }
    }
}

/// Index of the first active anomaly with fingerprint `fp` at or after
/// `i`, or the number of anomalies.
pub open spec fn find_active(a: Seq<AnomalyView>, fp: Seq<char>, i: int) -> int
    decreases a.len() - i,
{
    if i < 0 || i >= a.len() {
        a.len() as int
    } else if a[i].fingerprint == fp && a[i].status == AnomalyStatus::Active {
        i
    } else {
        find_active(a, fp, i + 1)
    }
}

/// More than a tenth of the observers report the anomaly's certificate.
pub open spec fn significant_minority(count: int, total: int) -> bool {
    total > 0 && 10 * count > total
}

/// The level an entry gives a fingerprint.
pub open spec fn entry_level(e: DomainView, fp: Seq<char>) -> AlertLevel {
    if fp == e.consensus.fingerprint {
        AlertLevel::Verified
    } else {
        let j = find_active(e.anomalies, fp, 0);
        if j < e.anomalies.len() {
            let a = e.anomalies[j];
            if significant_minority(
                a.observer_count as int,
                e.consensus.unique_observers + a.observer_count,
            ) {
                AlertLevel::Uncertain
            } else {
                AlertLevel::TargetedAttack
            }
        } else {
            AlertLevel::NovelDivergence
        }
    }
}

/// The confidence an entry gives a fingerprint: the consensus observers
/// (at least one) when it matches; the anomaly's share of the observers
/// when it is a known anomaly; nothing otherwise.
pub open spec fn entry_confidence(e: DomainView, fp: Seq<char>) -> (int, int) {
    if fp == e.consensus.fingerprint {
        if e.consensus.unique_observers > 0 {
            (e.consensus.unique_observers as int, 1)
        } else {
            (1, 1)
        }
    } else {
        let j = find_active(e.anomalies, fp, 0);
        if j < e.anomalies.len() {
            let a = e.anomalies[j];
            let total = e.consensus.unique_observers + a.observer_count;
            if total > 0 {
                (a.observer_count as int, total)
            } else {
                (0, 1)
            }
        } else {
            (0, 1)
        }
    }
}

/// The observer count an entry reports for a fingerprint.
pub open spec fn entry_observers(e: DomainView, fp: Seq<char>) -> int {
    if fp == e.consensus.fingerprint {
        e.consensus.unique_observers as int
    } else {
        let j = find_active(e.anomalies, fp, 0);
        if j < e.anomalies.len() {
            e.anomalies[j].observer_count as int
        } else {
            0
        }
    }
}

/// The message an entry gives a fingerprint observed for `domain`.
pub open spec fn entry_message(e: DomainView, fp: Seq<char>, domain: Seq<char>) -> Seq<char> {
    let c = e.consensus;
    if fp == c.fingerprint {
        "Certificate matches network consensus. "@ + decimal(c.unique_observers as nat)
            + " observer(s) confirm."@
    } else {
        let j = find_active(e.anomalies, fp, 0);
        if j < e.anomalies.len() {
            let a = e.anomalies[j];
            if significant_minority(a.observer_count as int, c.unique_observers + a.observer_count) {
                "Certificate differs from consensus for "@ + domain + ". "@ + decimal(
                    a.observer_count as nat,
                ) + " observer(s) also report your certificate. Could be CDN variation."@
            } else {
                "WARNING: The certificate for "@ + domain + " does not match what "@ + decimal(
                    c.unique_observers as nat,
                ) + " other observer(s) are seeing. You may be experiencing a targeted MITM attack."@
            }
        } else {
            "WARNING: The certificate for "@ + domain
                + " is completely new — no other observer has reported it. Consensus fingerprint: "@
                + byte_prefix(c.fingerprint, 16)
        }
    }
}

/// The arithmetic of a check fits in 32 bits, and the consensus
/// fingerprint can be cut after its sixteenth byte when it needs to be.
pub open spec fn entry_check_ok(e: DomainView, fp: Seq<char>) -> bool {
    let j = find_active(e.anomalies, fp, 0);
    &&& (fp != e.consensus.fingerprint && j < e.anomalies.len()) ==> e.consensus.unique_observers
        + e.anomalies[j].observer_count <= u32::MAX
    &&& (fp != e.consensus.fingerprint && j >= e.anomalies.len()) ==> byte_prefix_ok(
        e.consensus.fingerprint,
        16,
    )
}

/// What a check against `entry` returns.
pub open spec fn entry_alert(r: AlertResult, e: DomainView, o: CertObservation) -> bool {
    let fp = o.cert_fingerprint@;
    &&& r.domain@ == o.domain@
    &&& r.my_fingerprint@ == fp
    &&& r.level == entry_level(e, fp)
    &&& r.consensus_fingerprint matches Some(c) && c@ == e.consensus.fingerprint
    &&& (r.confidence.num as int, r.confidence.den as int) == entry_confidence(e, fp)
    &&& r.observer_count == entry_observers(e, fp)
    &&& r.message@ == entry_message(e, fp, o.domain@)
}

fn push_str(s: &mut String, t: &str)
    ensures
        final(s)@ == old(s)@ + t@,
{
    s.append(t);
}

fn find_active_exec(a: &Vec<crate::ledger::Anomaly>, fp: &str) -> (j: usize)
    ensures
        j == find_active(a@.map_values(|x: crate::ledger::Anomaly| x@), fp@, 0),
        j <= a@.len(),
{
    let ghost av = a@.map_values(|x: crate::ledger::Anomaly| x@);
    let mut i: usize = 0;
    while i < a.len()
        invariant
            i <= a@.len(),
            av == a@.map_values(|x: crate::ledger::Anomaly| x@),
            find_active(av, fp@, 0) == find_active(av, fp@, i as int),
        decreases a@.len() - i,
    {
        if str_eq(a[i].fingerprint.as_str(), fp) && a[i].status == AnomalyStatus::Active {
            return i;
        }
        i = i + 1;
    }
    i
}

/// Check an observation against the ledger entry of its domain.
fn check_against_entry(entry: &DomainEntry, obs: &CertObservation) -> (r: AlertResult)
    requires
        entry_check_ok(entry@, obs.cert_fingerprint@),
    ensures
        entry_alert(r, entry@, *obs),
{
    let consensus_fp = &entry.consensus_cert.fingerprint;
    let unique = entry.consensus_cert.unique_observers;
    if str_eq(obs.cert_fingerprint.as_str(), consensus_fp.as_str()) {
        let mut message = String::from_str("Certificate matches network consensus. ");
        push_decimal(&mut message, unique as u64);
        push_str(&mut message, " observer(s) confirm.");
        let confidence = if unique > 0 {
            Confidence { num: unique as u64, den: 1 }
        } else {
            Confidence { num: 1, den: 1 }
        };
        return AlertResult {
            domain: obs.domain.clone(),
            level: AlertLevel::Verified,
            my_fingerprint: obs.cert_fingerprint.clone(),
            consensus_fingerprint: Some(consensus_fp.clone()),
            confidence,
            observer_count: unique,
            message,
        };
    }
    let j = find_active_exec(&entry.anomalies, obs.cert_fingerprint.as_str());
    if j < entry.anomalies.len() {
        let count = entry.anomalies[j].observer_count;
        let total = unique + count;
        let confidence = if total > 0 {
            Confidence { num: count as u64, den: total as u64 }
        } else {
            Confidence { num: 0, den: 1 }
        };
        if total > 0 && 10 * (count as u64) > total as u64 {
            let mut message = String::from_str("Certificate differs from consensus for ");
            push_str(&mut message, obs.domain.as_str());
            push_str(&mut message, ". ");
            push_decimal(&mut message, count as u64);
            push_str(
                &mut message,
                " observer(s) also report your certificate. Could be CDN variation.",
            );
            AlertResult {
                domain: obs.domain.clone(),
                level: AlertLevel::Uncertain,
                my_fingerprint: obs.cert_fingerprint.clone(),
                consensus_fingerprint: Some(consensus_fp.clone()),
                confidence,
                observer_count: count,
                message,
            }
        } else {
            let mut message = String::from_str("WARNING: The certificate for ");
            push_str(&mut message, obs.domain.as_str());
            push_str(&mut message, " does not match what ");
            push_decimal(&mut message, unique as u64);
            push_str(
                &mut message,
                " other observer(s) are seeing. You may be experiencing a targeted MITM attack.",
            );
            AlertResult {
                domain: obs.domain.clone(),
                level: AlertLevel::TargetedAttack,
                my_fingerprint: obs.cert_fingerprint.clone(),
                consensus_fingerprint: Some(consensus_fp.clone()),
                confidence,
                observer_count: count,
                message,
            }
        }
    } else {
        let mut message = String::from_str("WARNING: The certificate for ");
        push_str(&mut message, obs.domain.as_str());
        push_str(
            &mut message,
            " is completely new — no other observer has reported it. Consensus fingerprint: ",
        );
        let head = str_byte_prefix(consensus_fp.as_str(), 16);
        push_str(&mut message, head.as_str());
        AlertResult {
            domain: obs.domain.clone(),
            level: AlertLevel::NovelDivergence,
            my_fingerprint: obs.cert_fingerprint.clone(),
            consensus_fingerprint: Some(consensus_fp.clone()),
            confidence: Confidence { num: 0, den: 1 },
            observer_count: 0,
            message,
        }
    }
}

/// The message for a domain the network knows nothing of.
pub open spec fn no_data_message(domain: Seq<char>) -> Seq<char> {
    "No network data for "@ + domain + ". Standard TLS trust applies."@
}

/// Check an observation against the ledger: `Unverified` when the ledger
/// has no entry for its domain, otherwise as `entry_alert` says.
pub fn check_observation(ledger: &CertificateLedger, obs: &CertObservation) -> (r: AlertResult)
    requires
        ledger@.contains_key(obs.domain@) ==> entry_check_ok(
            ledger@[obs.domain@],
            obs.cert_fingerprint@,
        ),
    ensures
        !ledger@.contains_key(obs.domain@) ==> {
            &&& r.domain@ == obs.domain@
            &&& r.level == AlertLevel::Unverified
            &&& r.my_fingerprint@ == obs.cert_fingerprint@
            &&& r.consensus_fingerprint is None
            &&& r.confidence == Confidence { num: 0, den: 1 }
            &&& r.observer_count == 0
            &&& r.message@ == no_data_message(obs.domain@)
        },
        ledger@.contains_key(obs.domain@) ==> entry_alert(r, ledger@[obs.domain@], *obs),
{
    match ledger.lookup(obs.domain.as_str()) {
        None => {
            let mut message = String::from_str("No network data for ");
            push_str(&mut message, obs.domain.as_str());
            push_str(&mut message, ". Standard TLS trust applies.");
            AlertResult {
                domain: obs.domain.clone(),
                level: AlertLevel::Unverified,
                my_fingerprint: obs.cert_fingerprint.clone(),
                consensus_fingerprint: None,
                confidence: Confidence { num: 0, den: 1 },
                observer_count: 0,
                message,
            }
        },
        Some(entry) => check_against_entry(entry, obs),
    }
}

/// Index of the most recent observation (the last one among equally
/// recent ones).
pub open spec fn latest_index(h: Seq<CertObservation>) -> int
    decreases h.len(),
{
    if h.len() <= 1 {
        0
    } else {
        let p = latest_index(h.drop_last());
        if ts_before(h.last().observed_at, h[p].observed_at) {
            p
        } else {
            h.len() - 1
        }
    }
}

proof fn lemma_latest_index_bounds(h: Seq<CertObservation>)
    requires
        h.len() > 0,
    ensures
        0 <= latest_index(h) < h.len(),
    decreases h.len(),
{
    if h.len() > 1 {
        lemma_latest_index_bounds(h.drop_last());
    }
}

/// What a check against the personal diary returns.
pub open spec fn diary_alert(r: AlertResult, o: CertObservation, h: Seq<CertObservation>) -> bool {
    let fp = o.cert_fingerprint@;
    &&& r.domain@ == o.domain@
    &&& r.my_fingerprint@ == fp
    &&& if h.len() == 0 {
        &&& r.level == AlertLevel::Unverified
        &&& r.consensus_fingerprint is None
        &&& r.confidence == Confidence { num: 0, den: 1 }
        &&& r.observer_count == 0
        &&& r.message@ == "First visit to "@ + o.domain@ + " — recorded in personal diary."@
    } else {
        let prev = h[latest_index(h)].cert_fingerprint@;
        &&& r.consensus_fingerprint matches Some(c) && c@ == prev
        &&& r.observer_count == 1
        &&& if fp == prev {
            &&& r.level == AlertLevel::Verified
            &&& r.confidence == Confidence { num: 1, den: 1 }
            &&& r.message@ == "Certificate matches your previous observation for "@ + o.domain@
                + "."@
        } else {
            &&& r.level == AlertLevel::NovelDivergence
            &&& r.confidence == Confidence { num: 0, den: 1 }
            &&& r.message@ == "Certificate for "@ + o.domain@
                + " has changed since your last visit. Previous: "@ + byte_prefix(prev, 16)
                + "..."@
        }
    }
}

/// Check an observation against earlier ones of the personal diary: the
/// most recent earlier certificate must be the same.
pub fn check_against_diary(obs: &CertObservation, diary_history: &[CertObservation]) -> (r:
    AlertResult)
    requires
        diary_history@.len() > 0 ==> byte_prefix_ok(
            diary_history@[latest_index(diary_history@)].cert_fingerprint@,
            16,
        ),
    ensures
        diary_alert(r, *obs, diary_history@),
{
    let mut refs: Vec<&CertObservation> = Vec::new();
    let mut i: usize = 0;
    while i < diary_history.len()
        invariant
            i <= diary_history@.len(),
            refs@.map_values(|x: &CertObservation| *x) == diary_history@.take(i as int),
        decreases diary_history@.len() - i,
    {
        let ghost r0 = refs@;
        refs.push(&diary_history[i]);
        assert(refs@.map_values(|x: &CertObservation| *x) =~= r0.map_values(|x: &CertObservation| *x).push(diary_history@[i as int]));
        i = i + 1;
        assert(refs@.map_values(|x: &CertObservation| *x) =~= diary_history@.take(i as int));
    }
    assert(diary_history@.take(diary_history@.len() as int) =~= diary_history@);
    diary_check(obs, &refs)
}

/// The diary check over a history given by reference.
fn diary_check(obs: &CertObservation, h: &Vec<&CertObservation>) -> (r: AlertResult)
    requires
        h@.len() > 0 ==> byte_prefix_ok(
            h@.map_values(|x: &CertObservation| *x)[latest_index(h@.map_values(|x: &CertObservation| *x))].cert_fingerprint@,
            16,
        ),
    ensures
        diary_alert(r, *obs, h@.map_values(|x: &CertObservation| *x)),
{
    let ghost hv = h@.map_values(|x: &CertObservation| *x);
    if h.len() == 0 {
        let mut message = String::from_str("First visit to ");
        push_str(&mut message, obs.domain.as_str());
        push_str(&mut message, " — recorded in personal diary.");
        return AlertResult {
            domain: obs.domain.clone(),
            level: AlertLevel::Unverified,
            my_fingerprint: obs.cert_fingerprint.clone(),
            consensus_fingerprint: None,
            confidence: Confidence { num: 0, den: 1 },
            observer_count: 0,
            message,
        };
    }
    let mut best: usize = 0;
    let mut i: usize = 1;
    while i < h.len()
        invariant
            hv == h@.map_values(|x: &CertObservation| *x),
            hv.len() == h@.len(),
            1 <= i <= hv.len(),
            best < i,
            best == latest_index(hv.take(i as int)),
        decreases hv.len() - i,
    {
        proof {
            let t = hv.take(i + 1);
            assert(t.drop_last() =~= hv.take(i as int));
            lemma_latest_index_bounds(hv.take(i as int));
        }
        if !h[i].observed_at.before(&h[best].observed_at) {
            best = i;
        }
        i = i + 1;
    }
    proof {
        assert(hv.take(hv.len() as int) =~= hv);
    }
    let latest = &h[best];
    if str_eq(obs.cert_fingerprint.as_str(), latest.cert_fingerprint.as_str()) {
        let mut message = String::from_str("Certificate matches your previous observation for ");
        push_str(&mut message, obs.domain.as_str());
        push_str(&mut message, ".");
        AlertResult {
            domain: obs.domain.clone(),
            level: AlertLevel::Verified,
            my_fingerprint: obs.cert_fingerprint.clone(),
            consensus_fingerprint: Some(latest.cert_fingerprint.clone()),
            confidence: Confidence { num: 1, den: 1 },
            observer_count: 1,
            message,
        }
    } else {
        let mut message = String::from_str("Certificate for ");
        push_str(&mut message, obs.domain.as_str());
        push_str(&mut message, " has changed since your last visit. Previous: ");
        let head = str_byte_prefix(latest.cert_fingerprint.as_str(), 16);
        push_str(&mut message, head.as_str());
        push_str(&mut message, "...");
        AlertResult {
            domain: obs.domain.clone(),
            level: AlertLevel::NovelDivergence,
            my_fingerprint: obs.cert_fingerprint.clone(),
            consensus_fingerprint: Some(latest.cert_fingerprint.clone()),
            confidence: Confidence { num: 0, den: 1 },
            observer_count: 1,
            message,
        }
    }
}

/// The index of the latest observation of a non-empty history.
fn latest_position(h: &Vec<&CertObservation>) -> (best: usize)
    requires
        h@.len() > 0,
    ensures
        best == latest_index(h@.map_values(|x: &CertObservation| *x)),
        best < h@.len(),
{
    let ghost hv = h@.map_values(|x: &CertObservation| *x);
    let mut best: usize = 0;
    let mut i: usize = 1;
    while i < h.len()
        invariant
            hv == h@.map_values(|x: &CertObservation| *x),
            hv.len() == h@.len(),
            1 <= i <= hv.len(),
            best < i,
            best == latest_index(hv.take(i as int)),
        decreases hv.len() - i,
    {
        proof {
            let t = hv.take(i + 1);
            assert(t.drop_last() =~= hv.take(i as int));
            lemma_latest_index_bounds(hv.take(i as int));
        }
        if !h[i].observed_at.before(&h[best].observed_at) {
            best = i;
        }
        i = i + 1;
    }
    assert(hv.take(hv.len() as int) =~= hv);
    best
}

/// The diary check over a history given by reference, when the message it
/// may write can be cut from the previous fingerprint; `None` when the
/// first 16 bytes of that fingerprint split a character (where slicing the
/// text would panic).
pub fn try_check_against_diary(obs: &CertObservation, history: &Vec<&CertObservation>) -> (r: Option<AlertResult>)
    ensures
        ({
            let hv = history@.map_values(|x: &CertObservation| *x);
            &&& r is None <==> hv.len() > 0 && !byte_prefix_ok(hv[latest_index(hv)].cert_fingerprint@, 16)
            &&& r matches Some(a) ==> diary_alert(a, *obs, hv)
        }),
{
    if history.len() > 0 {
        let b = latest_position(history);
        if !byte_prefix_checked(history[b].cert_fingerprint.as_str(), 16) {
            return None;
        }
    }
    Some(diary_check(obs, history))
}

/// Whether `check_observation` can run on `obs`: no count would overflow
/// and no fingerprint would be cut inside a character.
fn check_ok(ledger: &CertificateLedger, obs: &CertObservation) -> (b: bool)
    ensures
        b == (ledger@.contains_key(obs.domain@) ==> entry_check_ok(
            ledger@[obs.domain@],
            obs.cert_fingerprint@,
        )),
{
    match ledger.lookup(obs.domain.as_str()) {
        None => true,
        Some(entry) => {
            let c = &entry.consensus_cert;
            if str_eq(obs.cert_fingerprint.as_str(), c.fingerprint.as_str()) {
                return true;
            }
            let j = find_active_exec(&entry.anomalies, obs.cert_fingerprint.as_str());
            if j < entry.anomalies.len() {
                (c.unique_observers as u64) + (entry.anomalies[j].observer_count as u64)
                    <= 0xffff_ffff
            } else {
                byte_prefix_checked(c.fingerprint.as_str(), 16)
            }
        },
    }
}

/// What a check of `o` against the ledger `l` returns.
pub open spec fn observation_alert(a: AlertResult, l: Map<Seq<char>, DomainView>, o: CertObservation) -> bool {
    if l.contains_key(o.domain@) {
        entry_alert(a, l[o.domain@], o)
    } else {
        &&& a.domain@ == o.domain@
        &&& a.level == AlertLevel::Unverified
        &&& a.my_fingerprint@ == o.cert_fingerprint@
        &&& a.consensus_fingerprint is None
        &&& a.confidence == Confidence { num: 0, den: 1 }
        &&& a.observer_count == 0
        &&& a.message@ == no_data_message(o.domain@)
    }
}

/// Whether the ledger check of `o` can run (see `check_observation`).
pub open spec fn observation_check_ok(l: Map<Seq<char>, DomainView>, o: CertObservation) -> bool {
    l.contains_key(o.domain@) ==> entry_check_ok(l[o.domain@], o.cert_fingerprint@)
}

/// `check_observation`, when it can run on `obs` (see its requirement);
/// `None` otherwise.
pub fn try_check_observation(ledger: &CertificateLedger, obs: &CertObservation) -> (r: Option<AlertResult>)
    ensures
        r is Some <==> observation_check_ok(ledger@, *obs),
        r matches Some(a) ==> observation_alert(a, ledger@, *obs),
{
    if check_ok(ledger, obs) {
        Some(check_observation(ledger, obs))
    } else {
        None
    }
}

proof fn lemma_find_active_first(a: Seq<AnomalyView>, fp: Seq<char>, i: int)
    requires
        0 <= i <= a.len(),
    ensures
        i <= find_active(a, fp, i) <= a.len(),
        find_active(a, fp, i) < a.len() ==> a[find_active(a, fp, i)].fingerprint == fp
            && a[find_active(a, fp, i)].status == AnomalyStatus::Active,
        forall|k: int|
            i <= k < find_active(a, fp, i) ==> !((#[trigger] a[k]).fingerprint == fp && a[k].status
                == AnomalyStatus::Active),
    decreases a.len() - i,
{
    if i < a.len() && !(a[i].fingerprint == fp && a[i].status == AnomalyStatus::Active) {
        lemma_find_active_first(a, fp, i + 1);
    }
}

/// The level a ledger check gives: `Unverified` for a domain the ledger
/// does not know; `Verified` for the consensus certificate; for an active
/// anomaly's certificate `Uncertain` when more than a tenth of the
/// observers (consensus and anomaly together) report it, else
/// `TargetedAttack`; `NovelDivergence` for a certificate nobody reported.
pub proof fn lemma_ledger_alert_level(a: AlertResult, l: Map<Seq<char>, DomainView>, o: CertObservation)
    requires
        observation_alert(a, l, o),
        ledger_wf(l),
    ensures
        !l.contains_key(o.domain@) ==> a.level is Unverified,
        l.contains_key(o.domain@) ==> {
            let e = l[o.domain@];
            let fp = o.cert_fingerprint@;
            &&& fp == e.consensus.fingerprint ==> a.level is Verified
            &&& forall|k: int|
                0 <= k < e.anomalies.len() && (#[trigger] e.anomalies[k]).fingerprint == fp
                    && e.anomalies[k].status == AnomalyStatus::Active ==> {
                    let n = e.anomalies[k].observer_count as int;
                    let total = e.consensus.unique_observers + n;
                    if 10 * n > total {
                        a.level is Uncertain
                    } else {
                        a.level is TargetedAttack
                    }
                }
            &&& (fp != e.consensus.fingerprint && forall|k: int|
                0 <= k < e.anomalies.len() ==> !((#[trigger] e.anomalies[k]).fingerprint == fp
                    && e.anomalies[k].status == AnomalyStatus::Active)) ==> a.level is NovelDivergence
        },
{
    if l.contains_key(o.domain@) {
        let e = l[o.domain@];
        let fp = o.cert_fingerprint@;
        lemma_find_active_first(e.anomalies, fp, 0);
        let j = find_active(e.anomalies, fp, 0);
        assert forall|k: int|
            0 <= k < e.anomalies.len() && (#[trigger] e.anomalies[k]).fingerprint == fp
                && e.anomalies[k].status == AnomalyStatus::Active implies {
            let n = e.anomalies[k].observer_count as int;
            let total = e.consensus.unique_observers + n;
            if 10 * n > total {
                a.level is Uncertain
            } else {
                a.level is TargetedAttack
            }
        } by {
            assert(fp != e.consensus.fingerprint);
            assert(j <= k);
            if j < k {
                assert(e.anomalies[j].fingerprint != e.anomalies[k].fingerprint);
            }
        }
    }
}

/// `j` is the diary's latest observation: none is later, and every one
/// after it in the diary is earlier (the last of equally late ones).
pub open spec fn last_latest(h: Seq<CertObservation>, j: int) -> bool {
    &&& 0 <= j < h.len()
    &&& forall|k: int| 0 <= k < h.len() ==> !ts_before(h[j].observed_at, (#[trigger] h[k]).observed_at)
    &&& forall|k: int| j < k < h.len() ==> ts_before((#[trigger] h[k]).observed_at, h[j].observed_at)
}

proof fn lemma_latest_index_is_last_latest(h: Seq<CertObservation>)
    requires
        h.len() > 0,
    ensures
        last_latest(h, latest_index(h)),
        forall|j: int| #[trigger] last_latest(h, j) ==> j == latest_index(h),
    decreases h.len(),
{
    lemma_latest_index_bounds(h);
    if h.len() > 1 {
        let p = h.drop_last();
        lemma_latest_index_is_last_latest(p);
        let pj = latest_index(p);
        assert(p[pj] == h[pj]);
        assert forall|k: int| 0 <= k < p.len() implies p[k] == h[k] by {}
    }
    let j = latest_index(h);
    assert forall|i: int| #[trigger] last_latest(h, i) implies i == j by {
        if i < j {
            assert(!ts_before(h[j].observed_at, h[i].observed_at));
        } else if i > j {
            assert(!ts_before(h[i].observed_at, h[j].observed_at));
        }
    }
}

/// The level a diary check gives: `Unverified` on a first visit;
/// otherwise `Verified` when the certificate is that of the latest
/// earlier observation, and `NovelDivergence` when it is not.
pub proof fn lemma_diary_alert_level(r: AlertResult, o: CertObservation, h: Seq<CertObservation>)
    requires
        diary_alert(r, o, h),
    ensures
        h.len() == 0 ==> r.level is Unverified,
        forall|j: int|
            #[trigger] last_latest(h, j) ==> if o.cert_fingerprint@ == h[j].cert_fingerprint@ {
                r.level is Verified
            } else {
                r.level is NovelDivergence
            },
{
    if h.len() > 0 {
        lemma_latest_index_is_last_latest(h);
    }
}

} // verus!
