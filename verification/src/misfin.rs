//! Misfin messaging: recipient addresses, request lines and responses.
use vstd::prelude::*;
use vstd::string::{StrSliceExecFns, StringExecFns, StringSliceAdditionalSpecFns};
use vstd::utf8::{
    decode_utf8, encode_utf8, encode_utf8_decode_utf8, is_char_boundary,
    is_char_boundary_iff_not_is_continuation_byte, is_char_boundary_start_end_of_seq,
    is_continuation_byte, valid_utf8, valid_utf8_split,
};

use crate::client::{str_from_utf8, Error, InvalidStatus, ProtoError};
use crate::num::{parse_unsigned, parse_unsigned_exec};
use crate::text::{
    find_char, find_char_exec, lemma_trim_end_index_bounds, str_chars, trim_end,
    trim_end_index_exec,
};

verus! {

/// Port that Misfin servers listen on unless an address names another.
pub const DEFAULT_PORT: u16 = 1958;

/// A Misfin server's reply: a two-digit status and its meta text.
#[derive(Debug, Clone)]
pub struct MisfinResponse {
    pub status: u8,
    pub meta: String,
}

/// Index of the last `c` in `s[..end]`, if any.
pub open spec fn last_index_of(s: Seq<char>, end: int, c: char) -> Option<int>
    decreases end,
{
    if end <= 0 {
        None
    } else if s[end - 1] == c {
        Some(end - 1)
    } else {
        last_index_of(s, end - 1, c)
    }
}

/// Host and port of a `user@host[:port]` address.
pub open spec fn recipient_host_spec(r: Seq<char>) -> Result<(Seq<char>, u16), Error> {
    let at = find_char(r, 0, '@');
    if at >= r.len() {
        Err(Error::InvalidHost)
    } else {
        let hp = r.subrange(at + 1, r.len() as int);
        match last_index_of(hp, hp.len() as int, ':') {
            Some(c) => match parse_unsigned(encode_utf8(hp.subrange(c + 1, hp.len() as int)), 65535) {
                Some(p) => Ok((hp.subrange(0, c), p as u16)),
                None => Err(Error::InvalidHost),
            },
            None => Ok((hp, DEFAULT_PORT)),
        }
    }
}

fn last_index_of_exec(s: &Vec<char>, start: usize, c: char) -> (r: Option<usize>)
    requires
        start <= s@.len(),
    ensures
        match (r, last_index_of(s@.subrange(start as int, s@.len() as int), s@.len() - start, c)) {
            (Some(i), Some(j)) => i == j && i < s@.len() - start,
            (None, None) => true,
            _ => false,
        },
{
    let ghost t = s@.subrange(start as int, s@.len() as int);
    let mut end = s.len() - start;
    while end > 0
        invariant
            end <= s@.len() - start,
            start <= s@.len(),
            t == s@.subrange(start as int, s@.len() as int),
            s@.len() == s.len(),
            last_index_of(t, t.len() as int, c) == last_index_of(t, end as int, c),
        decreases end,
    {
        if s[start + end - 1] == c {
            return Some(end - 1);
        }
        end = end - 1;
    }
    None
}

/// Split a `user@host[:port]` address into host and port (1958 when no
/// port is given).
pub fn parse_recipient_host(recipient: &str) -> (r: Result<(String, u16), Error>)
    ensures
        match (r, recipient_host_spec(recipient@)) {
            (Ok((h, p)), Ok((sh, sp))) => h@ == sh && p == sp,
            (Err(e), Err(se)) => e == se,
            _ => false,
        },
{
    let chars = str_chars(recipient);
    let n = chars.len();
    let at = find_char_exec(&chars, 0, '@');
    if at == n {
        return Err(Error::InvalidHost);
    }
    let hs = at + 1;
    let ghost hp = recipient@.subrange(hs as int, n as int);
    match last_index_of_exec(&chars, hs, ':') {
        Some(c) => {
            let port_text = recipient.substring_char(hs + c + 1, n);
            assert(port_text@ =~= hp.subrange(c + 1, hp.len() as int));
            match parse_unsigned_exec(port_text.as_bytes(), 65535) {
                Some(p) => {
                    let host = recipient.substring_char(hs, hs + c).to_owned();
                    assert(host@ =~= hp.subrange(0, c as int));
                    Ok((host, p as u16))
                },
                None => Err(Error::InvalidHost),
            }
        },
        None => {
            let host = recipient.substring_char(hs, n).to_owned();
            Ok((host, DEFAULT_PORT))
        },
    }
}

/// The request line that delivers `body` to `recipient`.
pub open spec fn misfin_request_spec(recipient: Seq<char>, body: Seq<char>) -> Seq<char> {
    "misfin://"@ + recipient + seq![' '] + body + seq!['\r', '\n']
}

/// `misfin://<recipient> <body>\r\n`.
pub fn misfin_request(recipient: &str, body: &str) -> (s: String)
    ensures
        s@ == misfin_request_spec(recipient@, body@),
{
    let mut s = String::new();
    s.append("misfin://");
    s.append(recipient);
    s.push(' ');
    s.append(body);
    s.push('\r');
    s.push('\n');
    s
}

/// Index of the first `v` at or after `i` (or the length).
pub open spec fn find_byte(b: Seq<u8>, i: int, v: u8) -> int
    decreases b.len() - i,
{
    if i < 0 || i >= b.len() {
        i
    } else if b[i] != v {
        find_byte(b, i + 1, v)
    } else {
        i
    }
}

/// The first line of `b` as `str::lines` yields it: up to the first line
/// feed, without a carriage return that precedes that line feed.
pub open spec fn first_line(b: Seq<u8>) -> Seq<u8> {
    let nl = find_byte(b, 0, 10);
    if nl < b.len() {
        let l = b.subrange(0, nl);
        if l.len() > 0 && l.last() == 13 {
            l.drop_last()
        } else {
            l
        }
    } else {
        b
    }
}

/// The inputs on which the response parser slices its first line inside a
/// character: the status field ends, or the meta field starts, in the
/// middle of a multi-byte character.
pub open spec fn response_splits_char(b: Seq<u8>) -> bool {
    let l = first_line(b);
    ||| l.len() > 2 && is_continuation_byte(l[2])
    ||| l.len() > 3 && parse_unsigned(l.subrange(0, 2), 255) is Some && is_continuation_byte(l[3])
}

/// Status and meta of a Misfin response in `b`.
pub open spec fn misfin_response_spec(b: Seq<u8>) -> Result<(u8, Seq<char>), Error> {
    if !valid_utf8(b) {
        Err(Error::InvalidUtf8)
    } else {
        let l = first_line(b);
        if l.len() < 2 {
            Err(Error::InvalidProtocolData(ProtoError::MetaNotFound))
        } else {
            match parse_unsigned(l.subrange(0, 2), 255) {
                None => Err(Error::InvalidProtocolData(ProtoError::InvalidStatus(InvalidStatus))),
                Some(v) => Ok(
                    (
                        v as u8,
                        trim_end(
                            decode_utf8(
                                if l.len() > 3 {
                                    l.subrange(3, l.len() as int)
                                } else {
                                    seq![]
                                },
                            ),
                        ),
                    ),
                ),
            }
        }
    }
}

pub proof fn lemma_find_byte(b: Seq<u8>, i: int, v: u8)
    requires
        0 <= i <= b.len(),
    ensures
        i <= find_byte(b, i, v) <= b.len(),
        find_byte(b, i, v) < b.len() ==> b[find_byte(b, i, v)] == v,
    decreases b.len() - i,
{
    if i < b.len() && b[i] != v {
        lemma_find_byte(b, i + 1, v);
    }
}

fn find_byte_exec(b: &[u8], v: u8) -> (r: usize)
    ensures
        r == find_byte(b@, 0, v),
        r <= b@.len(),
{
    let mut i: usize = 0;
    while i < b.len() && b[i] != v
        invariant
            i <= b@.len(),
            find_byte(b@, 0, v) == find_byte(b@, i as int, v),
        decreases b@.len() - i,
    {
        i = i + 1;
    }
    i
}

/// Whether `parse_response` may be given `buf`: its first line is not cut
/// inside a multi-byte character where the status or the meta field is
/// taken from it (replies that are not UTF-8 are always accepted).
pub fn response_readable(buf: &[u8]) -> (b: bool)
    ensures
        b == (valid_utf8(buf@) ==> !response_splits_char(buf@)),
{
    if str_from_utf8(buf).is_none() {
        return true;
    }
    let n = buf.len();
    let nl = find_byte_exec(buf, 10);
    let l_end: usize = if nl < n && nl > 0 && buf[nl - 1] == 13 {
        nl - 1
    } else {
        nl
    };
    let ghost l = first_line(buf@);
    assert(l =~= buf@.subrange(0, l_end as int));
    if l_end > 2 && 0x80 <= buf[2] && buf[2] <= 0xbf {
        return false;
    }
    if l_end > 3 && 0x80 <= buf[3] && buf[3] <= 0xbf {
        let head = &buf[0..2];
        assert(head@ =~= l.subrange(0, 2));
        if parse_unsigned_exec(head, 255).is_some() {
            return false;
        }
    }
    true
}

/// Parse a Misfin response: `<2-digit status> <meta>\r\n`.
pub fn parse_response(buf: &[u8]) -> (r: Result<MisfinResponse, Error>)
    requires
        valid_utf8(buf@) ==> !response_splits_char(buf@),
    ensures
        match (r, misfin_response_spec(buf@)) {
            (Ok(resp), Ok((st, meta))) => resp.status == st && resp.meta@ == meta,
            (Err(e), Err(se)) => e == se,
            _ => false,
        },
{
    if str_from_utf8(buf).is_none() {
        return Err(Error::InvalidUtf8);
    }
    let n = buf.len();
    let nl = find_byte_exec(buf, 10);
    let l_end: usize = if nl < n && nl > 0 && buf[nl - 1] == 13 {
        nl - 1
    } else {
        nl
    };
    let ghost l = first_line(buf@);
    assert(l =~= buf@.subrange(0, l_end as int));
    if l_end < 2 {
        return Err(Error::InvalidProtocolData(ProtoError::MetaNotFound));
    }
    let head = &buf[0..2];
    assert(head@ =~= l.subrange(0, 2));
    let status = match parse_unsigned_exec(head, 255) {
        Some(v) => v as u8,
        None => {
            return Err(Error::InvalidProtocolData(ProtoError::InvalidStatus(InvalidStatus)));
        },
    };
    if l_end > 3 {
        let meta_bytes = &buf[3..l_end];
        proof {
            assert(buf@.len() == n);
            lemma_find_byte(buf@, 0, 10);
            assert(is_char_boundary(buf@, l_end as int)) by {
                is_char_boundary_start_end_of_seq(buf@);
                if l_end < n {
                    is_char_boundary_iff_not_is_continuation_byte(buf@, l_end as int);
                }
            }
            valid_utf8_split(buf@, l_end as int);
            assert(is_char_boundary(l, 3)) by {
                is_char_boundary_iff_not_is_continuation_byte(l, 3);
            }
            valid_utf8_split(l, 3);
            assert(meta_bytes@ =~= l.subrange(3, l.len() as int));
        }
        match str_from_utf8(meta_bytes) {
            Some(s) => {
                proof {
                    encode_utf8_decode_utf8(s@);
                }
                let chars = str_chars(s);
                let te = trim_end_index_exec(&chars, chars.len());
                proof {
                    lemma_trim_end_index_bounds(chars@, chars@.len() as int);
                }
                let meta = s.substring_char(0, te).to_owned();
                Ok(MisfinResponse { status, meta })
            },
            None => Err(Error::InvalidUtf8),
        }
    } else {
        proof {
            assert(decode_utf8(seq![]) =~= Seq::<char>::empty());
            assert(trim_end(Seq::<char>::empty()) =~= Seq::<char>::empty());
        }
        Ok(MisfinResponse { status, meta: String::new() })
    }
}

} // verus!
