//! Standard base64 (RFC 4648 alphabet, `=` padding), used to store node keys.
use vstd::prelude::*;

use vstd::string::StringExecFns;

use crate::error::HydraError;
use crate::text::str_chars;

verus! {

/// The character for a 6-bit value.
pub open spec fn b64_char(v: nat) -> char {
    if v < 26 {
        (65 + v) as char
    } else if v < 52 {
        (97 + (v - 26)) as char
    } else if v < 62 {
        (48 + (v - 52)) as char
    } else if v == 62 {
        '+'
    } else {
        '/'
    }
}

/// The 6-bit value of a base64 character.
pub open spec fn b64_val(c: char) -> Option<nat> {
    let u = c as u32;
    if 65 <= u <= 90 {
        Some((u - 65) as nat)
    } else if 97 <= u <= 122 {
        Some((u - 97 + 26) as nat)
    } else if 48 <= u <= 57 {
        Some((u - 48 + 52) as nat)
    } else if c == '+' {
        Some(62)
    } else if c == '/' {
        Some(63)
    } else {
        None
    }
}

pub open spec fn triple(d: Seq<u8>) -> nat {
    let b0 = d[0] as nat;
    let b1 = if d.len() > 1 {
        d[1] as nat
    } else {
        0
    };
    let b2 = if d.len() > 2 {
        d[2] as nat
    } else {
        0
    };
    b0 * 65536 + b1 * 256 + b2
}

/// The characters that carry data for a chunk of 1 to 3 bytes.
pub open spec fn chunk_core(d: Seq<u8>) -> Seq<char> {
    let t = triple(d);
    let two = seq![b64_char(t / 262144), b64_char((t / 4096) % 64)];
    if d.len() == 1 {
        two
    } else if d.len() == 2 {
        two.push(b64_char((t / 64) % 64))
    } else {
        two.push(b64_char((t / 64) % 64)).push(b64_char(t % 64))
    }
}

/// Padding of a chunk of 1 to 3 bytes.
pub open spec fn chunk_pad(d: Seq<u8>) -> Seq<char> {
    if d.len() == 1 {
        seq!['=', '=']
    } else if d.len() == 2 {
        seq!['=']
    } else {
        seq![]
    }
}

/// Base64 encoding of `d`, chunk by chunk from the front.
pub open spec fn b64_encode_spec(d: Seq<u8>) -> Seq<char>
    decreases d.len(),
{
    if d.len() == 0 {
        seq![]
    } else if d.len() <= 3 {
        chunk_core(d) + chunk_pad(d)
    } else {
        chunk_core(d.subrange(0, 3)) + b64_encode_spec(d.subrange(3, d.len() as int))
    }
}

pub open spec fn pow2(n: nat) -> nat
    decreases n,
{
    if n == 0 {
        1
    } else {
        2 * pow2((n - 1) as nat)
    }
}

/// Decoding of `s` from the state `(buf, bits)`: each character adds six
/// bits, and each time eight or more bits are pending their top eight make
/// a byte. The first character outside the alphabet is the error.
pub open spec fn b64_decode_from(s: Seq<char>, buf: nat, bits: nat) -> Result<Seq<u8>, char>
    decreases s.len(),
{
    if s.len() == 0 {
        Ok(seq![])
    } else {
        match b64_val(s[0]) {
            None => Err(s[0]),
            Some(v) => {
                let nb = buf * 64 + v;
                let nbits = bits + 6;
                if nbits >= 8 {
                    let k = (nbits - 8) as nat;
                    let byte = (nb / pow2(k)) as u8;
                    match b64_decode_from(s.drop_first(), nb % pow2(k), k) {
                        Ok(r) => Ok(seq![byte] + r),
                        Err(c) => Err(c),
                    }
                } else {
                    b64_decode_from(s.drop_first(), nb, nbits)
                }
            },
        }
    }
}

/// `s` without its trailing `=` characters.
pub open spec fn trim_pad(s: Seq<char>) -> Seq<char>
    decreases s.len(),
{
    if s.len() > 0 && s.last() == '=' {
        trim_pad(s.drop_last())
    } else {
        s
    }
}

/// Base64 decoding: padding is dropped, then the characters are decoded;
/// `Err(c)` names the first character outside the alphabet.
pub open spec fn b64_decode_spec(s: Seq<char>) -> Result<Seq<u8>, char> {
    b64_decode_from(trim_pad(s), 0, 0)
}

fn b64_char_exec(v: u32) -> (c: char)
    requires
        v < 64,
    ensures
        c == b64_char(v as nat),
{
    if v < 26 {
        ((65 + v) as u8) as char
    } else if v < 52 {
        ((97 + (v - 26)) as u8) as char
    } else if v < 62 {
        ((48 + (v - 52)) as u8) as char
    } else if v == 62 {
        '+'
    } else {
        '/'
    }
}

pub open spec fn chunk_len(n: int) -> int {
    if n >= 3 {
        3
    } else {
        n
    }
}

proof fn lemma_encode_step(d: Seq<u8>)
    requires
        d.len() > 0,
    ensures
        b64_encode_spec(d) == chunk_core(d.subrange(0, chunk_len(d.len() as int))) + chunk_pad(
            d.subrange(0, chunk_len(d.len() as int)),
        ) + b64_encode_spec(d.subrange(chunk_len(d.len() as int), d.len() as int)),
{
    let k = chunk_len(d.len() as int);
    if d.len() <= 3 {
        assert(d.subrange(0, k) =~= d);
        assert(d.subrange(k, d.len() as int) =~= Seq::<u8>::empty());
        assert(b64_encode_spec(Seq::<u8>::empty()) =~= Seq::<char>::empty());
    } else {
        assert(chunk_pad(d.subrange(0, 3)) =~= Seq::<char>::empty());
    }
}

/// Append the encoding of `data[i..i + len]` (one chunk, padded).
fn encode_chunk(out: &mut String, data: &[u8], i: usize, len: usize)
    requires
        1 <= len <= 3,
        i + len <= data@.len(),
    ensures
        final(out)@ == old(out)@ + chunk_core(data@.subrange(i as int, (i + len) as int))
            + chunk_pad(data@.subrange(i as int, (i + len) as int)),
{
    let ghost chunk = data@.subrange(i as int, (i + len) as int);
    let b0 = data[i] as u32;
    let b1: u32 = if len > 1 {
        data[i + 1] as u32
    } else {
        0
    };
    let b2: u32 = if len > 2 {
        data[i + 2] as u32
    } else {
        0
    };
    let t = b0 * 65536 + b1 * 256 + b2;
    assert(t == triple(chunk));
    assert(t < 16777216);
    out.push(b64_char_exec(t / 262144));
    out.push(b64_char_exec((t / 4096) % 64));
    if len > 1 {
        out.push(b64_char_exec((t / 64) % 64));
    } else {
        out.push('=');
    }
    if len > 2 {
        out.push(b64_char_exec(t % 64));
    } else {
        out.push('=');
    }
    assert(final(out)@ =~= old(out)@ + chunk_core(chunk) + chunk_pad(chunk));
}

/// Encode `data` as padded base64.
pub fn base64_encode(data: &[u8]) -> (s: String)
    ensures
        s@ == b64_encode_spec(data@),
{
    let mut result = String::new();
    let n = data.len();
    let mut i: usize = 0;
    proof {
        assert(data@.subrange(0, n as int) =~= data@);
    }
    while i < n
        invariant
            i <= n,
            n == data@.len(),
            b64_encode_spec(data@) == result@ + b64_encode_spec(
                data@.subrange(i as int, n as int),
            ),
        decreases n - i,
    {
        let ghost rest = data@.subrange(i as int, n as int);
        let len: usize = if n - i >= 3 {
            3
        } else {
            n - i
        };
        proof {
            lemma_encode_step(rest);
            assert(rest.subrange(0, len as int) =~= data@.subrange(i as int, (i + len) as int));
            assert(rest.subrange(len as int, rest.len() as int) =~= data@.subrange(
                (i + len) as int,
                n as int,
            ));
        }
        encode_chunk(&mut result, data, i, len);
        i = i + len;
    }
    proof {
        assert(b64_encode_spec(data@.subrange(n as int, n as int)) =~= Seq::<char>::empty());
    }
    result
}

/// `Ok(prefix + r)` for `Ok(r)`; errors pass through.
pub open spec fn prepend(prefix: Seq<u8>, r: Result<Seq<u8>, char>) -> Result<Seq<u8>, char> {
    match r {
        Ok(x) => Ok(prefix + x),
        Err(c) => Err(c),
    }
}

/// Message for a character outside the base64 alphabet.
pub open spec fn invalid_char_message(c: char) -> Seq<char> {
    "invalid base64 character: "@.push(c)
}

fn pow2_exec(n: u32) -> (p: u32)
    requires
        n <= 16,
    ensures
        p == pow2(n as nat),
        p > 0,
{
    let mut p: u32 = 1;
    let mut i: u32 = 0;
    while i < n
        invariant
            i <= n <= 16,
            p == pow2(i as nat),
            0 < p <= 65536,
        decreases n - i,
    {
        proof {
            lemma_pow2_le(i as nat);
        }
        p = p * 2;
        i = i + 1;
    }
    p
}

proof fn lemma_pow2_le(n: nat)
    requires
        n < 16,
    ensures
        pow2(n) <= 32768,
        pow2(n) > 0,
    decreases n,
{
    reveal_with_fuel(pow2, 16);
}

proof fn lemma_pow2_add6(n: nat)
    ensures
        pow2(n + 6) == 64 * pow2(n),
{
    reveal_with_fuel(pow2, 7);
}

fn b64_val_exec(c: char) -> (r: Option<u32>)
    ensures
        match (r, b64_val(c)) {
            (Some(v), Some(w)) => v == w && v < 64,
            (None, None) => true,
            _ => false,
        },
{
    let u = c as u32;
    if 65 <= u && u <= 90 {
        Some(u - 65)
    } else if 97 <= u && u <= 122 {
        Some(u - 97 + 26)
    } else if 48 <= u && u <= 57 {
        Some(u - 48 + 52)
    } else if c == '+' {
        Some(62)
    } else if c == '/' {
        Some(63)
    } else {
        None
    }
}

/// Decode base64 text (padding optional, and ignored).
pub fn base64_decode(input: &str) -> (r: Result<Vec<u8>, HydraError>)
    ensures
        match (r, b64_decode_spec(input@)) {
            (Ok(v), Ok(d)) => v@ == d,
            (Err(e), Err(c)) => e matches HydraError::Crypto(m) && m@ == invalid_char_message(c),
            _ => false,
        },
{
    let chars = str_chars(input);
    let mut e = chars.len();
    proof {
        assert(chars@.subrange(0, e as int) =~= chars@);
    }
    while e > 0 && chars[e - 1] == '='
        invariant
            e <= chars@.len(),
            trim_pad(chars@) == trim_pad(chars@.subrange(0, e as int)),
        decreases e,
    {
        assert(chars@.subrange(0, e as int).drop_last() =~= chars@.subrange(0, e - 1));
        e = e - 1;
    }
    let ghost t = chars@.subrange(0, e as int);
    assert(trim_pad(chars@) == t);
    let mut result: Vec<u8> = Vec::new();
    let mut buf: u32 = 0;
    let mut bits: u32 = 0;
    let mut k: usize = 0;
    proof {
        assert(t.subrange(0, e as int) =~= t);
        assert(result@ + Seq::<u8>::empty() =~= Seq::<u8>::empty());
        match b64_decode_from(t, 0, 0) {
            Ok(x) => assert(Seq::<u8>::empty() + x =~= x),
            Err(_) => {},
        }
    }
    while k < e
        invariant
            k <= e <= chars@.len(),
            t == chars@.subrange(0, e as int),
            t == trim_pad(input@),
            bits < 8,
            buf < pow2(bits as nat),
            b64_decode_from(t, 0, 0) == prepend(
                result@,
                b64_decode_from(t.subrange(k as int, e as int), buf as nat, bits as nat),
            ),
        decreases e - k,
    {
        let c = chars[k];
        let ghost rest = t.subrange(k as int, e as int);
        assert(rest.drop_first() =~= t.subrange(k + 1, e as int));
        assert(rest[0] == c);
        match b64_val_exec(c) {
            None => {
                let mut msg = String::from_str("invalid base64 character: ");
                msg.push(c);
                assert(msg@ == invalid_char_message(c));
                assert(b64_decode_from(rest, buf as nat, bits as nat) == Err::<Seq<u8>, char>(c));
                assert(b64_decode_from(t, 0, 0) == Err::<Seq<u8>, char>(c));
                assert(b64_decode_spec(input@) == Err::<Seq<u8>, char>(c));
                return Err(HydraError::Crypto(msg));
            },
            Some(v) => {
                proof {
                    lemma_pow2_le(bits as nat);
                    lemma_pow2_add6(bits as nat);
                }
                let nb = buf * 64 + v;
                let nbits = bits + 6;
                if nbits >= 8 {
                    let kk = nbits - 8;
                    let p = pow2_exec(kk);
                    let byte = #[verifier::truncate] ((nb / p) as u8);
                    let ghost old_result = result@;
                    result.push(byte);
                    buf = nb % p;
                    bits = kk;
                    proof {
                        match b64_decode_from(t.subrange(k + 1, e as int), buf as nat, bits as nat) {
                            Ok(x) => {
                                assert(old_result + (seq![byte] + x) =~= result@ + x);
                            },
                            Err(_) => {},
                        }
                    }
                } else {
                    buf = nb;
                    bits = nbits;
                }
            },
        }
        k = k + 1;
    }
    proof {
        assert(t.subrange(e as int, e as int) =~= Seq::<char>::empty());
        assert(result@ + Seq::<u8>::empty() =~= result@);
    }
    Ok(result)
}

/// The data characters of the encoding of `d` (the encoding without its
/// padding).
pub open spec fn b64_nopad(d: Seq<u8>) -> Seq<char>
    decreases d.len(),
{
    if d.len() == 0 {
        seq![]
    } else if d.len() <= 3 {
        chunk_core(d)
    } else {
        chunk_core(d.subrange(0, 3)) + b64_nopad(d.subrange(3, d.len() as int))
    }
}

/// The padding of the encoding of `d`.
pub open spec fn b64_padding(d: Seq<u8>) -> Seq<char>
    decreases d.len(),
{
    if d.len() == 0 {
        seq![]
    } else if d.len() <= 3 {
        chunk_pad(d)
    } else {
        b64_padding(d.subrange(3, d.len() as int))
    }
}

proof fn lemma_b64_char_val(v: nat)
    requires
        v < 64,
    ensures
        b64_val(b64_char(v)) == Some(v),
        b64_char(v) != '=',
{
}

proof fn lemma_encode_parts(d: Seq<u8>)
    ensures
        b64_encode_spec(d) == b64_nopad(d) + b64_padding(d),
        forall|i: int| 0 <= i < b64_padding(d).len() ==> #[trigger] b64_padding(d)[i] == '=',
        d.len() > 0 ==> b64_nopad(d).len() > 0 && b64_nopad(d).last() != '=',
    decreases d.len(),
{
    if d.len() == 0 {
        assert(b64_encode_spec(d) =~= b64_nopad(d) + b64_padding(d));
    } else if d.len() <= 3 {
        let t = triple(d);
        assert(t < 16777216);
        lemma_b64_char_val(t / 262144);
        lemma_b64_char_val((t / 4096) % 64);
        lemma_b64_char_val((t / 64) % 64);
        lemma_b64_char_val(t % 64);
    } else {
        let rest = d.subrange(3, d.len() as int);
        lemma_encode_parts(rest);
        assert(b64_encode_spec(d) =~= b64_nopad(d) + b64_padding(d));
        assert(b64_nopad(d).last() == b64_nopad(rest).last());
    }
}

proof fn lemma_trim_pad(x: Seq<char>, p: Seq<char>)
    requires
        forall|i: int| 0 <= i < p.len() ==> #[trigger] p[i] == '=',
        x.len() == 0 || x.last() != '=',
    ensures
        trim_pad(x + p) == x,
    decreases p.len(),
{
    if p.len() == 0 {
        assert(x + p =~= x);
        if x.len() > 0 {
            assert(trim_pad(x) == x);
        }
    } else {
        assert((x + p).drop_last() =~= x + p.drop_last());
        lemma_trim_pad(x, p.drop_last());
    }
}

proof fn lemma_decode_full_chunk(c: Seq<u8>, rest: Seq<char>)
    requires
        c.len() == 3,
    ensures
        b64_decode_from(chunk_core(c) + rest, 0, 0) == prepend(c, b64_decode_from(rest, 0, 0)),
{
    let b0 = c[0] as nat;
    let b1 = c[1] as nat;
    let b2 = c[2] as nat;
    let t = triple(c);
    let s0 = t / 262144;
    let s1 = (t / 4096) % 64;
    let s2 = (t / 64) % 64;
    let s3 = t % 64;
    assert(s0 == b0 / 4 && s1 == (b0 % 4) * 16 + b1 / 16 && s2 == (b1 % 16) * 4 + b2 / 64 && s3
        == b2 % 64) by (nonlinear_arith)
        requires
            t == b0 * 65536 + b1 * 256 + b2,
            b0 < 256,
            b1 < 256,
            b2 < 256,
            s0 == t / 262144,
            s1 == (t / 4096) % 64,
            s2 == (t / 64) % 64,
            s3 == t % 64,
    ;
    lemma_b64_char_val(s0);
    lemma_b64_char_val(s1);
    lemma_b64_char_val(s2);
    lemma_b64_char_val(s3);
    let x = chunk_core(c) + rest;
    assert(x[0] == b64_char(s0));
    assert(x.drop_first()[0] == b64_char(s1));
    assert(x.drop_first().drop_first()[0] == b64_char(s2));
    assert(x.drop_first().drop_first().drop_first()[0] == b64_char(s3));
    assert(x.drop_first().drop_first().drop_first().drop_first() =~= rest);
    reveal_with_fuel(pow2, 5);
    let nb1 = s0 * 64 + s1;
    let nb2 = (nb1 % 16) * 64 + s2;
    let nb3 = (nb2 % 4) * 64 + s3;
    assert(nb1 / 16 == b0 && nb1 % 16 == b1 / 16) by (nonlinear_arith)
        requires
            nb1 == s0 * 64 + s1,
            s0 == b0 / 4,
            s1 == (b0 % 4) * 16 + b1 / 16,
            b1 < 256,
    ;
    assert(nb2 / 4 == b1 && nb2 % 4 == b2 / 64) by (nonlinear_arith)
        requires
            nb2 == (b1 / 16) * 64 + s2,
            s2 == (b1 % 16) * 4 + b2 / 64,
            b2 < 256,
    ;
    assert(nb3 == b2);
    assert(b64_decode_from(x.drop_first().drop_first().drop_first(), nb2 % 4, 2) == prepend(
        seq![b2 as u8],
        b64_decode_from(rest, 0, 0),
    ));
    assert(b64_decode_from(x.drop_first().drop_first(), nb1 % 16, 4) == prepend(
        seq![b1 as u8, b2 as u8],
        b64_decode_from(rest, 0, 0),
    )) by {
        match b64_decode_from(rest, 0, 0) {
            Ok(r) => assert(seq![b1 as u8] + (seq![b2 as u8] + r) =~= seq![b1 as u8, b2 as u8] + r),
            Err(_) => {},
        }
    }
    assert(b64_decode_from(x.drop_first(), s0, 6) == prepend(c, b64_decode_from(rest, 0, 0))) by {
        match b64_decode_from(rest, 0, 0) {
            Ok(r) => assert(seq![b0 as u8] + (seq![b1 as u8, b2 as u8] + r) =~= c + r),
            Err(_) => {},
        }
    }
}

proof fn lemma_decode_last_chunk(c: Seq<u8>)
    requires
        1 <= c.len() <= 2,
    ensures
        b64_decode_from(chunk_core(c), 0, 0) == Ok::<Seq<u8>, char>(c),
{
    let b0 = c[0] as nat;
    let b1 = if c.len() > 1 {
        c[1] as nat
    } else {
        0
    };
    let t = triple(c);
    let s0 = t / 262144;
    let s1 = (t / 4096) % 64;
    let s2 = (t / 64) % 64;
    assert(s0 == b0 / 4 && s1 == (b0 % 4) * 16 + b1 / 16 && s2 == (b1 % 16) * 4) by (
    nonlinear_arith)
        requires
            t == b0 * 65536 + b1 * 256,
            b0 < 256,
            b1 < 256,
            s0 == t / 262144,
            s1 == (t / 4096) % 64,
            s2 == (t / 64) % 64,
    ;
    lemma_b64_char_val(s0);
    lemma_b64_char_val(s1);
    lemma_b64_char_val(s2);
    reveal_with_fuel(pow2, 5);
    let x = chunk_core(c);
    let nb1 = s0 * 64 + s1;
    assert(nb1 / 16 == b0 && nb1 % 16 == b1 / 16) by (nonlinear_arith)
        requires
            nb1 == s0 * 64 + s1,
            s0 == b0 / 4,
            s1 == (b0 % 4) * 16 + b1 / 16,
            b1 < 256,
    ;
    assert(x.drop_first()[0] == b64_char(s1));
    if c.len() == 1 {
        assert(x.drop_first().drop_first() =~= Seq::<char>::empty());
        assert(b64_decode_from(x.drop_first(), s0, 6) == Ok::<Seq<u8>, char>(seq![b0 as u8]));
        assert(seq![b0 as u8] =~= c);
    } else {
        let nb2 = (nb1 % 16) * 64 + s2;
        assert(nb2 / 4 == b1 && nb2 % 4 == 0) by (nonlinear_arith)
            requires
                nb2 == (b1 / 16) * 64 + s2,
                s2 == (b1 % 16) * 4,
                b1 < 256,
        ;
        assert(x.drop_first().drop_first()[0] == b64_char(s2));
        assert(x.drop_first().drop_first().drop_first() =~= Seq::<char>::empty());
        assert(pow2(2) == 4);
        assert(b64_decode_from(Seq::<char>::empty(), 0, 2) == Ok::<Seq<u8>, char>(seq![]));
        assert(seq![b1 as u8] + Seq::<u8>::empty() =~= seq![b1 as u8]);
        assert(b64_decode_from(x.drop_first().drop_first(), nb1 % 16, 4) == Ok::<Seq<u8>, char>(
            seq![b1 as u8],
        ));
        assert(seq![b0 as u8] + seq![b1 as u8] =~= c);
    }
}

#[verifier::spinoff_prover]
#[verifier::rlimit(40)]
proof fn lemma_decode_nopad(d: Seq<u8>)
    ensures
        b64_decode_from(b64_nopad(d), 0, 0) == Ok::<Seq<u8>, char>(d),
    decreases d.len(),
{
    if d.len() == 0 {
    } else if d.len() == 3 {
        lemma_decode_full_chunk(d, seq![]);
        assert(chunk_core(d) + Seq::<char>::empty() =~= chunk_core(d));
        assert(d + Seq::<u8>::empty() =~= d);
    } else if d.len() < 3 {
        lemma_decode_last_chunk(d);
    } else {
        let c = d.subrange(0, 3);
        let rest = d.subrange(3, d.len() as int);
        lemma_decode_nopad(rest);
        lemma_decode_full_chunk(c, b64_nopad(rest));
        assert(c + rest =~= d);
    }
}

/// Decoding the base64 encoding of any byte string gives that byte string
/// back.
pub proof fn lemma_base64_roundtrip(d: Seq<u8>)
    ensures
        b64_decode_spec(b64_encode_spec(d)) == Ok::<Seq<u8>, char>(d),
{
    lemma_encode_parts(d);
    lemma_trim_pad(b64_nopad(d), b64_padding(d));
    lemma_decode_nopad(d);
}

} // verus!
