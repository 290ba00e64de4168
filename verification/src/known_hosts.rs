//! Trust-on-first-use store of server certificate fingerprints.
use vstd::prelude::*;
use vstd::string::{StrSliceExecFns, StringExecFns};

use crate::crypto::{sha256_hex, sha256_hex_spec};
use crate::strmap::{entries_map, has_key, lemma_entries_map_at, str_eq, unique_keys, StrMap};
use crate::text::{find_char, find_char_exec, lemma_find_char_sub, str_chars};

verus! {

/// Why a server certificate was refused.
#[derive(Debug, Clone, Copy, PartialEq, Eq, Structural)]
pub enum CertificateError {
    Expired,
    Revoked,
    NotActivated,
    BadIdentity,
    GenericError,
}

/// A store of host → certificate fingerprint pins.
pub trait KnownHostsRepo: core::fmt::Debug {
    /// The pins, as a map from host name to fingerprint text.
    spec fn hosts(&self) -> Map<Seq<char>, Seq<char>>;

    /// The fingerprint pinned for `host`.
    fn get(&self, host: &str) -> (r: Option<&str>)
        ensures
            match r {
                Some(s) => self.hosts().contains_key(host@) && self.hosts()[host@] == s@,
                None => !self.hosts().contains_key(host@),
            },
    ;

    /// Pin `sha` for `host`; true when the host had no pin before.
    fn insert(&mut self, host: &str, sha: &str) -> (new: bool)
        ensures
            final(self).hosts() == old(self).hosts().insert(host@, sha@),
            new == !old(self).hosts().contains_key(host@),
    ;

    /// Drop the pin of `host`; true when there was one.
    fn remove(&mut self, host: &str) -> (had: bool)
        ensures
            final(self).hosts() == old(self).hosts().remove(host@),
            had == old(self).hosts().contains_key(host@),
    ;

    /// All pins, each host once.
    fn values(&self) -> (v: Vec<(String, String)>)
        ensures
            entries_map(v@) == self.hosts(),
            unique_keys(v@),
    ;
}

/// In-memory pin store.
#[derive(Debug)]
pub struct KnownHostsMap {
    pins: StrMap,
}

impl Clone for KnownHostsMap {
    fn clone(&self) -> (c: Self)
        ensures
            c.hosts() == self.hosts(),
    {
        KnownHostsMap { pins: self.pins.clone() }
    }
}

impl KnownHostsMap {
    /// An empty store.
    pub fn new() -> (m: Self)
        ensures
            m.hosts() == Map::<Seq<char>, Seq<char>>::empty(),
    {
        KnownHostsMap { pins: StrMap::new() }
    }
}

impl KnownHostsRepo for KnownHostsMap {
    closed spec fn hosts(&self) -> Map<Seq<char>, Seq<char>> {
        self.pins@
    }

    fn get(&self, host: &str) -> (r: Option<&str>) {
        self.pins.get(host)
    }

    fn insert(&mut self, host: &str, sha: &str) -> (new: bool) {
        self.pins.insert(host, sha)
    }

    fn remove(&mut self, host: &str) -> (had: bool) {
        self.pins.remove(host)
    }

    fn values(&self) -> (v: Vec<(String, String)>) {
        self.pins.to_vec()
    }
}

/// Whether the pins accept `cert_der` from `host`: a host without a pin
/// accepts any certificate, a pinned host only one with the pinned
/// fingerprint.
pub open spec fn cert_accepted(hosts: Map<Seq<char>, Seq<char>>, host: Seq<char>, cert_der: Seq<u8>) -> bool {
    !hosts.contains_key(host) || hosts[host] == sha256_hex_spec(cert_der)
}

/// The pins after `host` presented `cert_der`: a host without a pin gets
/// the certificate's fingerprint pinned; other pins stay.
pub open spec fn pins_after(hosts: Map<Seq<char>, Seq<char>>, host: Seq<char>, cert_der: Seq<u8>) -> Map<
    Seq<char>,
    Seq<char>,
> {
    if hosts.contains_key(host) {
        hosts
    } else {
        hosts.insert(host, sha256_hex_spec(cert_der))
    }
}

/// Trust on first use: the first certificate a host presents is accepted
/// and pinned; from then on a certificate is accepted exactly when its
/// fingerprint is the pinned one, and checking it changes no pin.
pub proof fn lemma_first_use_pins(
    hosts: Map<Seq<char>, Seq<char>>,
    host: Seq<char>,
    first: Seq<u8>,
    later: Seq<u8>,
)
    ensures
        !hosts.contains_key(host) ==> cert_accepted(hosts, host, first),
        cert_accepted(pins_after(hosts, host, first), host, later) <==> pins_after(
            hosts,
            host,
            first,
        )[host] == sha256_hex_spec(later),
        pins_after(hosts, host, first)[host] == (if hosts.contains_key(host) {
            hosts[host]
        } else {
            sha256_hex_spec(first)
        }),
        pins_after(pins_after(hosts, host, first), host, later) == pins_after(hosts, host, first),
{
}

/// Check a server certificate against the pins (trust on first use): a
/// host seen before must present a certificate with the pinned
/// fingerprint; a new host gets the fingerprint pinned.
pub fn validate<R: KnownHostsRepo>(repo: &mut R, host: &str, cert_der: &[u8]) -> (r: Result<
    (),
    CertificateError,
>)
    ensures
        r is Ok <==> cert_accepted(old(repo).hosts(), host@, cert_der@),
        final(repo).hosts() == pins_after(old(repo).hosts(), host@, cert_der@),
        r is Err ==> r == Err::<(), CertificateError>(CertificateError::BadIdentity),
{
    let cert_sha = sha256_hex(cert_der);
    match repo.get(host) {
        Some(known) => {
            if !str_eq(known, cert_sha.as_str()) {
                return Err(CertificateError::BadIdentity);
            }
            Ok(())
        },
        None => {
            repo.insert(host, cert_sha.as_str());
            Ok(())
        },
    }
}

/// The pin a line of a known-hosts file holds: `host sha` separated by one
/// space (further fields ignored); lines without a space or with an empty
/// host hold none.
pub open spec fn known_hosts_line_entry(l: Seq<char>) -> Option<(Seq<char>, Seq<char>)> {
    let sp = find_char(l, 0, ' ');
    if sp >= l.len() || sp == 0 {
        None
    } else {
        Some((l.subrange(0, sp), l.subrange(sp + 1, find_char(l, sp + 1, ' '))))
    }
}

/// The pins of a known-hosts file's text, read line by line; a later line
/// overrides an earlier one for the same host.
pub open spec fn known_hosts_text_map(text: Seq<char>, acc: Map<Seq<char>, Seq<char>>) -> Map<
    Seq<char>,
    Seq<char>,
>
    decreases text.len(),
{
    let nl = find_char(text, 0, '\n');
    let line = text.subrange(0, nl);
    let acc2 = match known_hosts_line_entry(line) {
        Some((h, s)) => acc.insert(h, s),
        None => acc,
    };
    if nl >= text.len() || nl < 0 {
        acc2
    } else {
        known_hosts_text_map(text.subrange(nl + 1, text.len() as int), acc2)
    }
}

/// Read the pins out of the text of a known-hosts file.
pub fn parse_known_hosts(text: &str) -> (m: KnownHostsMap)
    ensures
        m.hosts() == known_hosts_text_map(text@, Map::empty()),
{
    let chars = str_chars(text);
    let n = chars.len();
    let mut m = KnownHostsMap::new();
    let mut start: usize = 0;
    proof {
        assert(chars@.subrange(0, n as int) =~= chars@);
    }
    loop
        invariant
            start <= n,
            n == chars@.len(),
            chars@ == text@,
            known_hosts_text_map(text@, Map::empty()) == known_hosts_text_map(
                chars@.subrange(start as int, n as int),
                m.hosts(),
            ),
        decreases n - start,
    {
        let ghost rest = chars@.subrange(start as int, n as int);
        let nl = find_char_exec(&chars, start, '\n');
        let ghost line = chars@.subrange(start as int, nl as int);
        proof {
            lemma_find_char_sub(chars@, start as int, n as int, start as int, '\n');
            assert(rest.subrange(0, nl - start) =~= line);
        }
        let sp = find_char_exec(&chars, start, ' ');
        proof {
            lemma_find_char_sub(chars@, start as int, nl as int, start as int, ' ');
        }
        if sp < nl && sp > start {
            let e = find_char_exec(&chars, sp + 1, ' ');
            proof {
                lemma_find_char_sub(chars@, start as int, nl as int, sp + 1, ' ');
            }
            let end = if e < nl {
                e
            } else {
                nl
            };
            let host = text.substring_char(start, sp);
            let sha = text.substring_char(sp + 1, end);
            proof {
                assert(host@ =~= line.subrange(0, sp - start));
                assert(sha@ =~= line.subrange(sp + 1 - start, end - start));
            }
            m.insert(host, sha);
        }
        if nl >= n {
            return m;
        }
        proof {
            assert(rest.subrange(nl - start + 1, rest.len() as int) =~= chars@.subrange(
                nl + 1,
                n as int,
            ));
        }
        start = nl + 1;
    }
}

/// The line of a known-hosts file that pins `sha` for `host`.
pub open spec fn known_hosts_line(host: Seq<char>, sha: Seq<char>) -> Seq<char> {
    host + seq![' '] + sha + seq!['\n']
}

/// The text of a known-hosts file holding the pins `e`: one line each, in
/// order.
pub open spec fn known_hosts_text_of(e: Seq<(String, String)>) -> Seq<char>
    decreases e.len(),
{
    if e.len() == 0 {
        Seq::empty()
    } else {
        known_hosts_line(e[0].0@, e[0].1@) + known_hosts_text_of(e.drop_first())
    }
}

/// A pin that a known-hosts line can hold: the host is not empty, and
/// neither host nor fingerprint holds a space or a line feed.
pub open spec fn storable_pin(host: Seq<char>, sha: Seq<char>) -> bool {
    &&& host.len() > 0
    &&& !host.contains(' ') && !host.contains('\n')
    &&& !sha.contains(' ') && !sha.contains('\n')
}

/// Every pin of `hosts` can be written as a line.
pub open spec fn storable_pins(hosts: Map<Seq<char>, Seq<char>>) -> bool {
    forall|h: Seq<char>| #[trigger] hosts.contains_key(h) ==> storable_pin(h, hosts[h])
}

proof fn lemma_find_char_at(s: Seq<char>, i: int, j: int, c: char)
    requires
        0 <= i <= j < s.len(),
        forall|k: int| i <= k < j ==> s[k] != c,
        s[j] == c,
    ensures
        find_char(s, i, c) == j,
    decreases j - i,
{
    if i < j {
        lemma_find_char_at(s, i + 1, j, c);
    }
}

proof fn lemma_find_char_none(s: Seq<char>, i: int, c: char)
    requires
        0 <= i <= s.len(),
        forall|k: int| i <= k < s.len() ==> s[k] != c,
    ensures
        find_char(s, i, c) == s.len(),
    decreases s.len() - i,
{
    if i < s.len() {
        lemma_find_char_none(s, i + 1, c);
    }
}

/// The entries after the first denote the map without the first key.
proof fn lemma_entries_map_rest(e: Seq<(String, String)>)
    requires
        unique_keys(e),
        e.len() > 0,
    ensures
        entries_map(e) == entries_map(e.drop_first()).insert(e[0].0@, e[0].1@),
        !entries_map(e.drop_first()).contains_key(e[0].0@),
{
    let d = e.drop_first();
    let h = e[0].0@;
    assert(unique_keys(d)) by {
        assert forall|i: int, j: int| 0 <= i < j < d.len() implies (#[trigger] d[i]).0@ != (#[trigger] d[j]).0@ by {
            assert(d[i] == e[i + 1] && d[j] == e[j + 1]);
        }
    }
    lemma_entries_map_at(e, 0);
    if entries_map(d).contains_key(h) {
        let j = choose|j: int| 0 <= j < d.len() && (#[trigger] d[j]).0@ == h;
        assert(e[j + 1] == d[j]);
        assert(false);
    }
    assert forall|k: Seq<char>| #[trigger] entries_map(e).contains_key(k) <==> entries_map(d).insert(h, e[0].1@).contains_key(k) by {
        if has_key(e, k) && k != h {
            let i = choose|i: int| 0 <= i < e.len() && (#[trigger] e[i]).0@ == k;
            assert(d[i - 1] == e[i]);
        }
        if has_key(d, k) {
            let j = choose|j: int| 0 <= j < d.len() && (#[trigger] d[j]).0@ == k;
            assert(e[j + 1] == d[j]);
        }
    }
    assert forall|k: Seq<char>| #[trigger] entries_map(e).contains_key(k) implies entries_map(e)[k] == entries_map(d).insert(h, e[0].1@)[k] by {
        if k != h {
            let i = choose|i: int| 0 <= i < e.len() && (#[trigger] e[i]).0@ == k;
            assert(d[i - 1] == e[i]);
            lemma_entries_map_at(e, i);
            lemma_entries_map_at(d, i - 1);
        }
    }
    assert(entries_map(e) =~= entries_map(d).insert(h, e[0].1@));
}

/// Reading the text of storable pins gives the pins back, over what was
/// read before.
proof fn lemma_text_of_reads_back(e: Seq<(String, String)>, acc: Map<Seq<char>, Seq<char>>)
    requires
        unique_keys(e),
        forall|i: int| 0 <= i < e.len() ==> storable_pin((#[trigger] e[i]).0@, e[i].1@),
    ensures
        known_hosts_text_map(known_hosts_text_of(e), acc) == acc.union_prefer_right(entries_map(e)),
    decreases e.len(),
{
    let text = known_hosts_text_of(e);
    if e.len() == 0 {
        assert(find_char(text, 0, '\n') == 0);
        assert(entries_map(e) =~= Map::<Seq<char>, Seq<char>>::empty());
        assert(acc.union_prefer_right(entries_map(e)) =~= acc);
    } else {
        let h = e[0].0@;
        let sha = e[0].1@;
        let d = e.drop_first();
        assert(storable_pin(h, sha));
        let line = h + seq![' '] + sha;
        let rest = known_hosts_text_of(d);
        assert(text =~= line + seq!['\n'] + rest);
        let n = line.len() as int;
        assert forall|k: int| 0 <= k < n implies text[k] != '\n' by {
            assert(text[k] == line[k]);
            if k < h.len() {
                assert(line[k] == h[k]);
                assert(h.contains(h[k]));
            } else if k > h.len() {
                assert(line[k] == sha[k - h.len() - 1]);
                assert(sha.contains(sha[k - h.len() - 1]));
            }
        }
        lemma_find_char_at(text, 0, n, '\n');
        assert(text.subrange(0, n) =~= line);
        assert forall|k: int| 0 <= k < h.len() implies line[k] != ' ' by {
            assert(h.contains(h[k]));
        }
        lemma_find_char_at(line, 0, h.len() as int, ' ');
        assert forall|k: int| h.len() + 1 <= k < line.len() implies line[k] != ' ' by {
            assert(line[k] == sha[k - h.len() - 1]);
            assert(sha.contains(sha[k - h.len() - 1]));
        }
        lemma_find_char_none(line, h.len() + 1int, ' ');
        assert(line.subrange(0, h.len() as int) =~= h);
        assert(line.subrange(h.len() + 1int, line.len() as int) =~= sha);
        assert(known_hosts_line_entry(line) == Some((h, sha)));
        assert(text.subrange(n + 1, text.len() as int) =~= rest);
        assert forall|i: int| 0 <= i < d.len() implies storable_pin((#[trigger] d[i]).0@, d[i].1@) by {
            assert(d[i] == e[i + 1]);
        }
        assert(unique_keys(d)) by {
            assert forall|i: int, j: int| 0 <= i < j < d.len() implies (#[trigger] d[i]).0@ != (#[trigger] d[j]).0@ by {
                assert(d[i] == e[i + 1] && d[j] == e[j + 1]);
            }
        }
        lemma_text_of_reads_back(d, acc.insert(h, sha));
        lemma_entries_map_rest(e);
        assert(acc.insert(h, sha).union_prefer_right(entries_map(d)) =~= acc.union_prefer_right(
            entries_map(e),
        ));
    }
}

/// The text of a known-hosts file holding the pins of `hosts`: a line
/// `host sha` for each. Where every pin can be written as a line, reading
/// the text back gives the same pins.
pub fn known_hosts_text(hosts: &KnownHostsMap) -> (t: String)
    ensures
        exists|e: Seq<(String, String)>|
            #![trigger known_hosts_text_of(e)]
            unique_keys(e) && entries_map(e) == hosts.hosts() && t@ == known_hosts_text_of(e),
        storable_pins(hosts.hosts()) ==> known_hosts_text_map(t@, Map::empty()) == hosts.hosts(),
{
    let v = hosts.values();
    let mut t = String::new();
    let mut i: usize = v.len();
    assert(v@.skip(v@.len() as int) =~= Seq::<(String, String)>::empty());
    while i > 0
        invariant
            i <= v@.len(),
            t@ == known_hosts_text_of(v@.skip(i as int)),
        decreases i,
    {
        i = i - 1;
        let ghost tail = v@.skip(i as int);
        assert(tail.drop_first() =~= v@.skip(i + 1));
        assert(tail[0] == v@[i as int]);
        let mut line = v[i].0.clone();
        line.push(' ');
        line.append(v[i].1.as_str());
        line.push('\n');
        line.append(t.as_str());
        t = line;
    }
    assert(v@.skip(0) =~= v@);
    proof {
        if storable_pins(hosts.hosts()) {
            assert forall|i: int| 0 <= i < v@.len() implies storable_pin((#[trigger] v@[i]).0@, v@[i].1@) by {
                lemma_entries_map_at(v@, i);
            }
            lemma_text_of_reads_back(v@, Map::empty());
            assert(Map::<Seq<char>, Seq<char>>::empty().union_prefer_right(entries_map(v@)) =~= entries_map(v@));
        }
    }
    t
}

} // verus!
