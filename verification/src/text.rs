use vstd::prelude::*;
use vstd::string::{StrSliceExecFns, StringSliceAdditionalSpecFns};
use vstd::utf8::{decode_utf8, encode_utf8, encode_utf8_decode_utf8, valid_utf8};

use crate::client::str_from_utf8;

verus! {

/// Appending one character to a `String` (std's `String::push`) extends its
/// character sequence by exactly that character.
pub assume_specification[ String::push ](s: &mut String, ch: char)
    ensures
        final(s)@ == old(s)@.push(ch),
;

/// The characters of a string slice, in order.
pub fn str_chars(s: &str) -> (v: Vec<char>)
    ensures
        v@ == s@,
{
    let mut v: Vec<char> = Vec::new();
    for c in it: s.chars()
        invariant
            v@ == it.seq().take(it.index() as int),
            it.seq() == s@,
    {
        v.push(c);
    }
    v
}


/// Unicode `White_Space` property: the characters that `str::trim` and
/// friends remove, and that a regular expression's `\s` matches.
pub open spec fn is_ws(c: char) -> bool {
    let u = c as u32;
    ||| 0x09 <= u <= 0x0D
    ||| u == 0x20
    ||| u == 0x85
    ||| u == 0xA0
    ||| u == 0x1680
    ||| 0x2000 <= u <= 0x200A
    ||| u == 0x2028
    ||| u == 0x2029
    ||| u == 0x202F
    ||| u == 0x205F
    ||| u == 0x3000
}

pub fn is_whitespace(c: char) -> (b: bool)
    ensures
        b == is_ws(c),
{
    let u = c as u32;
    (0x09 <= u && u <= 0x0D) || u == 0x20 || u == 0x85 || u == 0xA0 || u == 0x1680 || (0x2000
        <= u && u <= 0x200A) || u == 0x2028 || u == 0x2029 || u == 0x202F || u == 0x205F || u
        == 0x3000
}

/// Index of the first character at or after `i` that is not whitespace
/// (or `s.len()` if there is none).
pub open spec fn skip_ws(s: Seq<char>, i: int) -> int
    decreases s.len() - i,
{
    if i < 0 || i >= s.len() {
        i
    } else if is_ws(s[i]) {
        skip_ws(s, i + 1)
    } else {
        i
    }
}

/// Index of the first whitespace character at or after `i`
/// (or `s.len()` if there is none).
pub open spec fn skip_non_ws(s: Seq<char>, i: int) -> int
    decreases s.len() - i,
{
    if i < 0 || i >= s.len() {
        i
    } else if !is_ws(s[i]) {
        skip_non_ws(s, i + 1)
    } else {
        i
    }
}

/// Index of the first occurrence of `c` at or after `i` (or `s.len()`).
pub open spec fn find_char(s: Seq<char>, i: int, c: char) -> int
    decreases s.len() - i,
{
    if i < 0 || i >= s.len() {
        i
    } else if s[i] != c {
        find_char(s, i + 1, c)
    } else {
        i
    }
}

/// Index of the first character at or after `i` that differs from `c`.
pub open spec fn skip_char(s: Seq<char>, i: int, c: char) -> int
    decreases s.len() - i,
{
    if i < 0 || i >= s.len() {
        i
    } else if s[i] == c {
        skip_char(s, i + 1, c)
    } else {
        i
    }
}

/// End index of `s[..end]` once trailing whitespace is removed.
pub open spec fn trim_end_index(s: Seq<char>, end: int) -> int
    decreases end,
{
    if end <= 0 {
        0
    } else if is_ws(s[end - 1]) {
        trim_end_index(s, end - 1)
    } else {
        end
    }
}

/// `str::trim_end`.
pub open spec fn trim_end(s: Seq<char>) -> Seq<char> {
    s.subrange(0, trim_end_index(s, s.len() as int))
}

/// `str::trim_start`.
pub open spec fn trim_start(s: Seq<char>) -> Seq<char> {
    s.subrange(skip_ws(s, 0), s.len() as int)
}

/// `str::trim`.
pub open spec fn trim(s: Seq<char>) -> Seq<char> {
    trim_start(trim_end(s))
}

/// `s` begins with `p`.
pub open spec fn starts_with(s: Seq<char>, p: Seq<char>) -> bool {
    p.len() <= s.len() && s.subrange(0, p.len() as int) == p
}

/// `s` ends with `p`.
pub open spec fn ends_with(s: Seq<char>, p: Seq<char>) -> bool {
    p.len() <= s.len() && s.subrange(s.len() - p.len(), s.len() as int) == p
}

/// Number of occurrences of `c` in `s`.
pub open spec fn count_char(s: Seq<char>, c: char) -> nat
    decreases s.len(),
{
    if s.len() == 0 {
        0
    } else {
        count_char(s.drop_last(), c) + if s.last() == c {
            1nat
        } else {
            0nat
        }
    }
}

pub proof fn lemma_skip_ws_bounds(s: Seq<char>, i: int)
    requires
        0 <= i <= s.len(),
    ensures
        i <= skip_ws(s, i) <= s.len(),
        forall|k: int| i <= k < skip_ws(s, i) ==> is_ws(#[trigger] s[k]),
        skip_ws(s, i) < s.len() ==> !is_ws(s[skip_ws(s, i)]),
    decreases s.len() - i,
{
    if i < s.len() && is_ws(s[i]) {
        lemma_skip_ws_bounds(s, i + 1);
    }
}

pub proof fn lemma_skip_non_ws_bounds(s: Seq<char>, i: int)
    requires
        0 <= i <= s.len(),
    ensures
        i <= skip_non_ws(s, i) <= s.len(),
        forall|k: int| i <= k < skip_non_ws(s, i) ==> !is_ws(#[trigger] s[k]),
        skip_non_ws(s, i) < s.len() ==> is_ws(s[skip_non_ws(s, i)]),
    decreases s.len() - i,
{
    if i < s.len() && !is_ws(s[i]) {
        lemma_skip_non_ws_bounds(s, i + 1);
    }
}

pub proof fn lemma_skip_char_bounds(s: Seq<char>, i: int, c: char)
    requires
        0 <= i <= s.len(),
    ensures
        i <= skip_char(s, i, c) <= s.len(),
    decreases s.len() - i,
{
    if i < s.len() && s[i] == c {
        lemma_skip_char_bounds(s, i + 1, c);
    }
}

pub proof fn lemma_trim_end_index_bounds(s: Seq<char>, end: int)
    requires
        0 <= end <= s.len(),
    ensures
        0 <= trim_end_index(s, end) <= end,
        forall|k: int| trim_end_index(s, end) <= k < end ==> is_ws(#[trigger] s[k]),
        trim_end_index(s, end) > 0 ==> !is_ws(s[trim_end_index(s, end) - 1]),
    decreases end,
{
    if end > 0 && is_ws(s[end - 1]) {
        lemma_trim_end_index_bounds(s, end - 1);
    }
}

/// Searching a window `s[a..b]` from `i` finds what searching `s` from `i`
/// finds, cut off at the window's end.
pub proof fn lemma_find_char_sub(s: Seq<char>, a: int, b: int, i: int, c: char)
    requires
        0 <= a <= i <= b <= s.len(),
    ensures
        find_char(s.subrange(a, b), i - a, c) == (if find_char(s, i, c) < b {
            find_char(s, i, c)
        } else {
            b
        }) - a,
        i <= find_char(s, i, c) <= s.len(),
    decreases b - i,
{
    if i < b {
        if s[i] != c {
            lemma_find_char_sub(s, a, b, i + 1, c);
        }
    } else {
        lemma_find_char_sub_end(s, i, c);
    }
}

proof fn lemma_find_char_sub_end(s: Seq<char>, i: int, c: char)
    requires
        0 <= i <= s.len(),
    ensures
        i <= find_char(s, i, c) <= s.len(),
    decreases s.len() - i,
{
    if i < s.len() && s[i] != c {
        lemma_find_char_sub_end(s, i + 1, c);
    }
}

/// `skip_ws` computed over a character vector, starting at `i`.
pub fn skip_ws_exec(s: &Vec<char>, i: usize) -> (r: usize)
    requires
        i <= s@.len(),
    ensures
        r == skip_ws(s@, i as int),
        i <= r <= s@.len(),
{
    let mut j = i;
    while j < s.len() && is_whitespace(s[j])
        invariant
            i <= j <= s@.len(),
            skip_ws(s@, i as int) == skip_ws(s@, j as int),
        decreases s@.len() - j,
    {
        j = j + 1;
    }
    j
}

/// `skip_non_ws` computed over a character vector, starting at `i`.
pub fn skip_non_ws_exec(s: &Vec<char>, i: usize) -> (r: usize)
    requires
        i <= s@.len(),
    ensures
        r == skip_non_ws(s@, i as int),
        i <= r <= s@.len(),
{
    let mut j = i;
    while j < s.len() && !is_whitespace(s[j])
        invariant
            i <= j <= s@.len(),
            skip_non_ws(s@, i as int) == skip_non_ws(s@, j as int),
        decreases s@.len() - j,
    {
        j = j + 1;
    }
    j
}

/// `skip_char` computed over a character vector, starting at `i`.
pub fn skip_char_exec(s: &Vec<char>, i: usize, c: char) -> (r: usize)
    requires
        i <= s@.len(),
    ensures
        r == skip_char(s@, i as int, c),
        i <= r <= s@.len(),
{
    let mut j = i;
    while j < s.len() && s[j] == c
        invariant
            i <= j <= s@.len(),
            skip_char(s@, i as int, c) == skip_char(s@, j as int, c),
        decreases s@.len() - j,
    {
        j = j + 1;
    }
    j
}

/// `find_char` computed over a character vector, starting at `i`.
pub fn find_char_exec(s: &Vec<char>, i: usize, c: char) -> (r: usize)
    requires
        i <= s@.len(),
    ensures
        r == find_char(s@, i as int, c),
        i <= r <= s@.len(),
{
    let mut j = i;
    while j < s.len() && s[j] != c
        invariant
            i <= j <= s@.len(),
            find_char(s@, i as int, c) == find_char(s@, j as int, c),
        decreases s@.len() - j,
    {
        j = j + 1;
    }
    j
}

/// A copy of `s[a..b]`.
pub fn sub_chars(s: &Vec<char>, a: usize, b: usize) -> (r: Vec<char>)
    requires
        a <= b <= s@.len(),
    ensures
        r@ == s@.subrange(a as int, b as int),
{
    let mut r: Vec<char> = Vec::new();
    let mut k = a;
    while k < b
        invariant
            a <= k <= b <= s@.len(),
            r@ == s@.subrange(a as int, k as int),
        decreases b - k,
    {
        r.push(s[k]);
        k = k + 1;
        assert(r@ =~= s@.subrange(a as int, k as int));
    }
    r
}

/// `trim_end_index` computed over a character vector.
pub fn trim_end_index_exec(s: &Vec<char>, end: usize) -> (r: usize)
    requires
        end <= s@.len(),
    ensures
        r == trim_end_index(s@, end as int),
        r <= end,
{
    let mut j = end;
    while j > 0 && is_whitespace(s[j - 1])
        invariant
            j <= end <= s@.len(),
            trim_end_index(s@, end as int) == trim_end_index(s@, j as int),
        decreases j,
    {
        j = j - 1;
    }
    j
}

/// Whether `s[i..]` begins with `p`.
pub fn has_prefix_at(s: &Vec<char>, i: usize, p: &Vec<char>) -> (b: bool)
    requires
        i <= s@.len(),
    ensures
        b == starts_with(s@.subrange(i as int, s@.len() as int), p@),
{
    if p.len() > s.len() - i {
        return false;
    }
    let mut k: usize = 0;
    while k < p.len()
        invariant
            k <= p@.len(),
            i <= s@.len(),
            s@.len() == s.len(),
            p@.len() <= s@.len() - i,
            forall|m: int| 0 <= m < k ==> s@[i + m] == p@[m],
        decreases p@.len() - k,
    {
        if s[i + k] != p[k] {
            assert(s@.subrange(i as int, s@.len() as int).subrange(0, p@.len() as int)[k as int]
                != p@[k as int]);
            return false;
        }
        k = k + 1;
    }
    assert(s@.subrange(i as int, s@.len() as int).subrange(0, p@.len() as int) =~= p@);
    true
}

/// Number of occurrences of `c` in `s`.
pub fn count_char_exec(s: &Vec<char>, c: char) -> (n: usize)
    ensures
        n == count_char(s@, c),
{
    let mut n: usize = 0;
    let mut i: usize = 0;
    while i < s.len()
        invariant
            i <= s@.len(),
            n == count_char(s@.subrange(0, i as int), c),
            n <= i,
        decreases s@.len() - i,
    {
        assert(s@.subrange(0, i + 1).drop_last() =~= s@.subrange(0, i as int));
        if s[i] == c {
            n = n + 1;
        }
        i = i + 1;
    }
    assert(s@.subrange(0, s@.len() as int) =~= s@);
    n
}

/// Number of bytes that `&s[..n]` keeps: `n`, or the whole encoding when
/// it is shorter.
pub open spec fn byte_prefix_len(s: Seq<char>, n: int) -> int {
    if n < encode_utf8(s).len() {
        n
    } else {
        encode_utf8(s).len() as int
    }
}

/// `&s[..min(n, s.len())]` for a string `s` and a byte count `n`: the
/// characters encoded by the first bytes of `s`.
pub open spec fn byte_prefix(s: Seq<char>, n: int) -> Seq<char> {
    decode_utf8(encode_utf8(s).take(byte_prefix_len(s, n)))
}

/// The cut of `byte_prefix(s, n)` falls between two characters (std
/// panics otherwise).
pub open spec fn byte_prefix_ok(s: Seq<char>, n: int) -> bool {
    valid_utf8(encode_utf8(s).take(byte_prefix_len(s, n)))
}

/// `s[..n.min(s.len())]`, as an owned string.
pub fn str_byte_prefix(s: &str, n: usize) -> (r: String)
    requires
        byte_prefix_ok(s@, n as int),
    ensures
        r@ == byte_prefix(s@, n as int),
{
    let bytes = s.as_bytes_vec();
    let k = if n < bytes.len() {
        n
    } else {
        bytes.len()
    };
    let mut head: Vec<u8> = Vec::new();
    let mut i: usize = 0;
    while i < k
        invariant
            i <= k <= bytes@.len(),
            head@ == bytes@.take(i as int),
        decreases k - i,
    {
        head.push(bytes[i]);
        i = i + 1;
        assert(head@ =~= bytes@.take(i as int));
    }
    match str_from_utf8(head.as_slice()) {
        Some(t) => {
            proof {
                encode_utf8_decode_utf8(t@);
            }
            t.to_owned()
        },
        None => String::new(),
    }
}

/// `str::trim`: `s` without leading and trailing whitespace.
pub fn trim_str(s: &str) -> (r: &str)
    ensures
        r@ == trim(s@),
{
    let chars = str_chars(s);
    let n = chars.len();
    assert(chars@.subrange(0, n as int) =~= chars@);
    let te = trim_end_index_exec(&chars, n);
    proof {
        lemma_trim_end_index_bounds(chars@, n as int);
    }
    let t = sub_chars(&chars, 0, te);
    let ts = skip_ws_exec(&t, 0);
    proof {
        lemma_skip_ws_bounds(t@, 0);
        assert(trim(s@) =~= t@.subrange(ts as int, te as int));
    }
    let r = s.substring_char(ts, te);
    assert(t@.subrange(ts as int, te as int) =~= s@.subrange(ts as int, te as int));
    r
}

/// Whether `t` occurs in `s`.
pub fn str_contains(s: &str, t: &str) -> (b: bool)
    ensures
        b == contains_seq(s@, t@),
{
    let c = str_chars(s);
    let p = str_chars(t);
    if p.len() > c.len() {
        return false;
    }
    if p.len() == 0 {
        assert(s@.subrange(0, 0 + t@.len() as int) =~= t@);
        return true;
    }
    let last = c.len() - p.len();
    let mut i: usize = 0;
    while i <= last
        invariant
            c@ == s@,
            p@ == t@,
            last == c@.len() - p@.len(),
            p@.len() > 0,
            last < usize::MAX,
            i <= last + 1,
            forall|j: int| 0 <= j < i ==> #[trigger] c@.subrange(j, j + p@.len()) != p@,
        decreases last + 1 - i,
    {
        let found = has_prefix_at(&c, i, &p);
        assert(c@.subrange(i as int, c@.len() as int).subrange(0, p@.len() as int) =~= c@.subrange(
            i as int,
            i + p@.len(),
        ));
        if found {
            return true;
        }
        i = i + 1;
    }
    false
}

/// `t` occurs in `s`.
pub open spec fn contains_seq(s: Seq<char>, t: Seq<char>) -> bool {
    exists|i: int| 0 <= i && i + t.len() <= s.len() && #[trigger] s.subrange(i, i + t.len()) == t
}

/// Whether `s[..n.min(s.len())]` cuts between two characters.
pub fn byte_prefix_checked(s: &str, n: usize) -> (b: bool)
    ensures
        b == byte_prefix_ok(s@, n as int),
{
    let bytes = s.as_bytes_vec();
    let k = if n < bytes.len() {
        n
    } else {
        bytes.len()
    };
    let mut head: Vec<u8> = Vec::new();
    let mut i: usize = 0;
    while i < k
        invariant
            i <= k <= bytes@.len(),
            head@ == bytes@.take(i as int),
        decreases k - i,
    {
        head.push(bytes[i]);
        i = i + 1;
        assert(head@ =~= bytes@.take(i as int));
    }
    str_from_utf8(head.as_slice()).is_some()
}

} // verus!
