//! The values that the arguments and objects of a document stand for:
//! keys in base64, relay fingerprints in hexadecimal, port policies and
//! times.

use crate::crypto::{
    base64_padded, base64_unpadded, decode_base64_padded, decode_base64_unpadded,
};
use crate::netdoc::{
    find_word_end, find_word_start, lemma_word_end, lemma_word_start, word_end, word_start,
};
use vstd::prelude::*;
use vstd::slice::slice_subrange;

verus! {

/// What a base64 argument decodes to.  An argument whose length is a
/// multiple of four is taken to be padded, any other to be unpadded.
pub open spec fn base64_of(text: Seq<u8>) -> Option<Seq<u8>> {
    if text.len() % 4 == 0 {
        base64_padded(text)
    } else {
        base64_unpadded(text)
    }
}

/// The bytes of an optional vector.
pub open spec fn bytes_of(v: Option<Vec<u8>>) -> Option<Seq<u8>> {
    match v {
        Some(v) => Some(v@),
        None => None,
    }
}

/// Decode the base64 argument `s[a..b]`.
pub fn decode_base64(s: &[u8], a: usize, b: usize) -> (r: Option<Vec<u8>>)
    requires
        a <= b <= s.len(),
    ensures
        bytes_of(r) == base64_of(s@.subrange(a as int, b as int)),
{
    let text = slice_subrange(s, a, b);
    if (b - a) % 4 == 0 {
        decode_base64_padded(text)
    } else {
        decode_base64_unpadded(text)
    }
}

/// `s[i..limit]` without its newlines.
pub open spec fn without_newlines(s: Seq<u8>, i: int, limit: int) -> Seq<u8>
    decreases limit - i,
{
    if i >= limit {
        Seq::empty()
    } else if s[i] == 10 {
        without_newlines(s, i + 1, limit)
    } else {
        seq![s[i]] + without_newlines(s, i + 1, limit)
    }
}

/// What the body of an object decodes to: its lines are joined and read as
/// padded base64.
pub open spec fn object_bytes(s: Seq<u8>, body_start: int, body_end: int) -> Option<Seq<u8>> {
    base64_padded(without_newlines(s, body_start, body_end))
}

/// Decode the body `s[a..b]` of an object.
pub fn decode_object(s: &[u8], a: usize, b: usize) -> (r: Option<Vec<u8>>)
    requires
        a <= b <= s.len(),
    ensures
        bytes_of(r) == object_bytes(s@, a as int, b as int),
{
    let mut joined: Vec<u8> = Vec::new();
    let mut i: usize = a;
    while i < b
        invariant
            a <= i <= b <= s.len(),
            without_newlines(s@, a as int, b as int) == joined@ + without_newlines(
                s@,
                i as int,
                b as int,
            ),
        decreases b - i,
    {
        let ghost before = joined@;
        if s[i] != 10 {
            joined.push(s[i]);
        }
        proof {
            let rest = without_newlines(s@, i + 1, b as int);
            if s@[i as int] != 10 {
                assert(before + (seq![s@[i as int]] + rest) =~= before.push(s@[i as int]) + rest);
            }
        }
        i += 1;
    }
    proof {
        assert(joined@ + Seq::<u8>::empty() =~= joined@);
    }
    decode_base64_padded(joined.as_slice())
}

/// A key of 32 bytes, from what its encoding decoded to: `None` where that
/// failed or gave another length.
pub open spec fn key32_of(decoded: Option<Seq<u8>>) -> Option<Seq<u8>> {
    match decoded {
        Some(d) => if d.len() == 32 {
            Some(d)
        } else {
            None
        },
        None => None,
    }
}

/// Take a key of 32 bytes from what its encoding decoded to.
pub fn key32_from(decoded: &Option<Vec<u8>>) -> (r: Option<[u8; 32]>)
    ensures
        match key32_of(bytes_of(*decoded)) {
            Some(k) => r is Some && r->0@ == k,
            None => r is None,
        },
{
    match decoded {
        Some(d) => {
            if d.len() != 32 {
                return None;
            }
            let mut out: [u8; 32] = [0u8;32];
            let mut i: usize = 0;
            while i < 32
                invariant
                    i <= 32,
                    d@.len() == 32,
                    forall|j: int| 0 <= j < i ==> out@[j] == d@[j],
                decreases 32 - i,
            {
                out[i] = d[i];
                i += 1;
            }
            proof {
                assert(out@ =~= d@);
            }
            Some(out)
        },
        None => None,
    }
}

/// The value of a hexadecimal digit.
pub open spec fn hex_value(c: u8) -> Option<u8> {
    if 48 <= c <= 57 {
        Some((c - 48) as u8)
    } else if 65 <= c <= 70 {
        Some((c - 55) as u8)
    } else if 97 <= c <= 102 {
        Some((c - 87) as u8)
    } else {
        None
    }
}

/// The value of a hexadecimal digit.
pub fn hex_digit(c: u8) -> (r: Option<u8>)
    ensures
        r == hex_value(c),
{
    if 48 <= c && c <= 57 {
        Some(c - 48)
    } else if 65 <= c && c <= 70 {
        Some(c - 55)
    } else if 97 <= c && c <= 102 {
        Some(c - 87)
    } else {
        None
    }
}

/// The offset of the first `=` or `~` in `[i, limit)`, or `limit`.
pub open spec fn nickname_start(s: Seq<u8>, i: int, limit: int) -> int
    decreases limit - i,
{
    if i >= limit {
        limit
    } else if s[i] == 61 || s[i] == 126 {
        i
    } else {
        nickname_start(s, i + 1, limit)
    }
}

/// The fingerprint that the forty hexadecimal digits at offset `a` stand
/// for, if they are that.
pub open spec fn fingerprint_at(s: Seq<u8>, a: int) -> Option<Seq<u8>> {
    if forall|k: int| a <= k < a + 40 ==> hex_value(#[trigger] s[k]) is Some {
        Some(
            Seq::new(
                20,
                |j: int| (hex_value(s[a + 2 * j])->0 * 16 + hex_value(s[a + 2 * j + 1])->0) as u8,
            ),
        )
    } else {
        None
    }
}

/// The fingerprint that the word `s[a..b]` names: forty hexadecimal digits,
/// with or without `$` in front, with or without a nickname behind `=` or
/// `~`.
pub open spec fn ident_of(s: Seq<u8>, a: int, b: int) -> Option<Seq<u8>> {
    let from = if a < b && s[a] == 36 {
        a + 1
    } else {
        a
    };
    let to = nickname_start(s, from, b);
    if to - from == 40 {
        fingerprint_at(s, from)
    } else {
        None
    }
}

/// Read the fingerprint that the word `s[a..b]` names.
#[verifier::loop_isolation(false)]
pub fn parse_ident(s: &[u8], a: usize, b: usize) -> (r: Option<[u8; 20]>)
    requires
        a <= b <= s.len(),
    ensures
        match ident_of(s@, a as int, b as int) {
            Some(id) => r is Some && r->0@ == id,
            None => r is None,
        },
{
    let from: usize = if a < b && s[a] == 36 {
        a + 1
    } else {
        a
    };
    let mut to: usize = from;
    while to < b && !(s[to] == 61 || s[to] == 126)
        invariant
            from <= to <= b <= s.len(),
            nickname_start(s@, from as int, b as int) == nickname_start(s@, to as int, b as int),
        decreases b - to,
    {
        to += 1;
    }
    if to - from != 40 {
        return None;
    }
    let mut out: [u8; 20] = [0u8;20];
    let mut i: usize = 0;
    while i < 20
        invariant
            i <= 20,
            from + 40 <= s.len(),
            forall|k: int| from <= k < from + 2 * i ==> hex_value(#[trigger] s@[k]) is Some,
            forall|j: int|
                0 <= j < i ==> out@[j] == (hex_value(s@[from + 2 * j])->0 * 16 + hex_value(
                    s@[from + 2 * j + 1],
                )->0) as u8,
        decreases 20 - i,
    {
        let hi = match hex_digit(s[from + 2 * i]) {
            Some(v) => v,
            None => {
                return None;
            },
        };
        let lo = match hex_digit(s[from + 2 * i + 1]) {
            Some(v) => v,
            None => {
                return None;
            },
        };
        out[i] = hi * 16 + lo;
        i += 1;
    }
    proof {
        assert(out@ =~= fingerprint_at(s@, from as int)->0);
    }
    Some(out)
}

/// The fingerprints that the words of `s[i..limit]` name, or `None` where
/// one of them names none.
pub open spec fn family_of(s: Seq<u8>, i: int, limit: int) -> Option<Seq<Seq<u8>>>
    decreases limit - i,
{
    let a = word_start(s, i, limit);
    let b = word_end(s, a, limit);
    if a >= limit {
        Some(Seq::empty())
    } else if b <= i || b > limit {
        None
    } else {
        match (ident_of(s, a, b), family_of(s, b, limit)) {
            (Some(id), Some(rest)) => Some(seq![id] + rest),
            _ => None,
        }
    }
}

/// The byte sequences in a list of fingerprints.
pub open spec fn idents_view(v: Seq<[u8; 20]>) -> Seq<Seq<u8>> {
    Seq::new(v.len(), |i: int| v[i]@)
}

/// Read the fingerprints that the words of `s[i..limit]` name.
pub fn parse_family(s: &[u8], i: usize, limit: usize) -> (r: Option<Vec<[u8; 20]>>)
    requires
        i <= limit <= s.len(),
    ensures
        match family_of(s@, i as int, limit as int) {
            Some(ids) => r is Some && idents_view(r->0@) == ids,
            None => r is None,
        },
{
    let mut out: Vec<[u8; 20]> = Vec::new();
    let mut at: usize = i;
    loop
        invariant
            i <= at <= limit <= s.len(),
            family_of(s@, i as int, limit as int) == (match family_of(
                s@,
                at as int,
                limit as int,
            ) {
                Some(rest) => Some(idents_view(out@) + rest),
                None => None,
            }),
        decreases limit - at,
    {
        let a = find_word_start(s, at, limit);
        if a >= limit {
            proof {
                assert(idents_view(out@) + Seq::<Seq<u8>>::empty() =~= idents_view(out@));
            }
            return Some(out);
        }
        let b = find_word_end(s, a, limit);
        proof {
            lemma_word_start(s@, at as int, limit as int);
            lemma_word_end(s@, a as int, limit as int);
        }
        let ghost before = idents_view(out@);
        match parse_ident(s, a, b) {
            Some(id) => {
                out.push(id);
                proof {
                    let one = ident_of(s@, a as int, b as int)->0;
                    assert(idents_view(out@) =~= before.push(one));
                    match family_of(s@, b as int, limit as int) {
                        Some(rest) => {
                            assert(before + (seq![one] + rest) =~= before.push(one) + rest);
                        },
                        None => {},
                    }
                }
            },
            None => {
                return None;
            },
        }
        at = b;
    }
}

/// A range of ports, both ends included.
#[derive(Clone, Copy, Debug, PartialEq, Eq, Structural)]
pub struct PortRange {
    /// The lowest port of the range.
    pub lo: u16,
    /// The highest port of the range.
    pub hi: u16,
}

/// The number that the decimal digits `s[i..b]` add to `acc`, or `None`
/// where a byte is no digit or the number goes beyond 65535.
pub open spec fn decimal_from(s: Seq<u8>, i: int, b: int, acc: int) -> Option<int>
    decreases b - i,
{
    if i >= b {
        Some(acc)
    } else if !(48 <= s[i] <= 57) || acc * 10 + (s[i] - 48) > 65535 {
        None
    } else {
        decimal_from(s, i + 1, b, acc * 10 + (s[i] - 48))
    }
}

/// The port that `s[a..b]` names: a decimal number from 0 to 65535.
pub open spec fn port_of(s: Seq<u8>, a: int, b: int) -> Option<int> {
    if a >= b {
        None
    } else {
        decimal_from(s, a, b, 0)
    }
}

/// Read the port that `s[a..b]` names.
pub fn parse_port(s: &[u8], a: usize, b: usize) -> (r: Option<u16>)
    requires
        a <= b <= s.len(),
    ensures
        match port_of(s@, a as int, b as int) {
            Some(p) => r == Some(p as u16) && 0 <= p <= 65535,
            None => r is None,
        },
{
    if a >= b {
        return None;
    }
    let mut acc: u32 = 0;
    let mut i: usize = a;
    while i < b
        invariant
            a <= i <= b <= s.len(),
            acc <= 65535,
            decimal_from(s@, a as int, b as int, 0) == decimal_from(
                s@,
                i as int,
                b as int,
                acc as int,
            ),
        decreases b - i,
    {
        let c = s[i];
        if !(48 <= c && c <= 57) {
            return None;
        }
        let d: u32 = (c - 48) as u32;
        if acc * 10 + d > 65535 {
            return None;
        }
        acc = acc * 10 + d;
        i += 1;
    }
    Some(acc as u16)
}

/// The offset of the first byte `c` in `[i, limit)`, or `limit`.
pub open spec fn byte_pos(s: Seq<u8>, i: int, limit: int, c: u8) -> int
    decreases limit - i,
{
    if i >= limit {
        limit
    } else if s[i] == c {
        i
    } else {
        byte_pos(s, i + 1, limit, c)
    }
}

/// Find the first byte `c` in `s[i..limit]`.
pub fn find_byte(s: &[u8], i: usize, limit: usize, c: u8) -> (r: usize)
    requires
        i <= limit <= s.len(),
    ensures
        r == byte_pos(s@, i as int, limit as int, c),
        i <= r <= limit,
{
    let mut r: usize = i;
    while r < limit && s[r] != c
        invariant
            i <= r <= limit <= s.len(),
            byte_pos(s@, i as int, limit as int, c) == byte_pos(s@, r as int, limit as int, c),
        decreases limit - r,
    {
        r += 1;
    }
    r
}

/// The range that `s[a..b]` names: one port, or two with a hyphen between
/// them.  The lower is not zero and not above the higher.
pub open spec fn range_of(s: Seq<u8>, a: int, b: int) -> Option<PortRange> {
    let h = byte_pos(s, a, b, 45);
    let lo = port_of(s, a, h);
    let hi = if h < b {
        port_of(s, h + 1, b)
    } else {
        lo
    };
    match (lo, hi) {
        (Some(lo), Some(hi)) => if 1 <= lo <= hi <= 65535 {
            Some(PortRange { lo: lo as u16, hi: hi as u16 })
        } else {
            None
        },
        _ => None,
    }
}

/// Read the range that `s[a..b]` names.
pub fn parse_range(s: &[u8], a: usize, b: usize) -> (r: Option<PortRange>)
    requires
        a <= b <= s.len(),
    ensures
        r == range_of(s@, a as int, b as int),
        r is Some ==> 1 <= r->0.lo <= r->0.hi,
{
    let h = find_byte(s, a, b, 45);
    let lo = match parse_port(s, a, h) {
        Some(p) => p,
        None => {
            return None;
        },
    };
    let hi = if h < b {
        match parse_port(s, h + 1, b) {
            Some(p) => p,
            None => {
                return None;
            },
        }
    } else {
        lo
    };
    if 1 <= lo && lo <= hi {
        Some(PortRange { lo, hi })
    } else {
        None
    }
}

/// The ranges that the list `s[i..limit]` names, commas between them, each
/// above `floor` and above the one before it.
pub open spec fn ranges_of(s: Seq<u8>, i: int, limit: int, floor: int) -> Option<Seq<PortRange>>
    decreases limit - i,
{
    let c = byte_pos(s, i, limit, 44);
    match range_of(s, i, c) {
        None => None,
        Some(r) => if r.lo <= floor {
            None
        } else if c >= limit {
            Some(seq![r])
        } else if c < i {
            None
        } else {
            match ranges_of(s, c + 1, limit, r.hi as int) {
                Some(rest) => Some(seq![r] + rest),
                None => None,
            }
        },
    }
}

/// Whether the ranges are in order: each within the ports from 1 on, and
/// each above the one before it.
pub open spec fn ranges_ordered(v: Seq<PortRange>) -> bool {
    &&& forall|i: int| 0 <= i < v.len() ==> 1 <= (#[trigger] v[i]).lo <= v[i].hi
    &&& forall|i: int, j: int| 0 <= i < j < v.len() ==> (#[trigger] v[i]).hi < (#[trigger] v[j]).lo
}

/// Read the ranges that the list `s[i..limit]` names.
pub fn parse_ranges(s: &[u8], i: usize, limit: usize) -> (r: Option<Vec<PortRange>>)
    requires
        i <= limit <= s.len(),
    ensures
        match ranges_of(s@, i as int, limit as int, 0) {
            Some(v) => r is Some && r->0@ == v,
            None => r is None,
        },
        r is Some ==> ranges_ordered(r->0@),
{
    let mut out: Vec<PortRange> = Vec::new();
    let mut at: usize = i;
    let mut floor: u16 = 0;
    loop
        invariant
            i <= at <= limit <= s.len(),
            ranges_ordered(out@),
            forall|k: int| 0 <= k < out@.len() ==> (#[trigger] out@[k]).hi <= floor,
            ranges_of(s@, i as int, limit as int, 0) == (match ranges_of(
                s@,
                at as int,
                limit as int,
                floor as int,
            ) {
                Some(rest) => Some(out@ + rest),
                None => None,
            }),
        decreases limit - at,
    {
        let c = find_byte(s, at, limit, 44);
        let r = match parse_range(s, at, c) {
            Some(r) => r,
            None => {
                return None;
            },
        };
        if r.lo <= floor {
            return None;
        }
        let ghost before = out@;
        out.push(r);
        proof {
            assert(ranges_ordered(out@)) by {
                assert forall|x: int, y: int| 0 <= x < y < out@.len() implies (
                #[trigger] out@[x]).hi < (#[trigger] out@[y]).lo by {
                    if y == before.len() {
                        assert(before[x].hi <= floor);
                    } else {
                        assert(before[x].hi < before[y].lo);
                    }
                }
            }
        }
        if c >= limit {
            proof {
                assert(before + seq![r] =~= out@);
            }
            return Some(out);
        }
        proof {
            match ranges_of(s@, c + 1, limit as int, r.hi as int) {
                Some(rest) => {
                    assert(before + (seq![r] + rest) =~= out@ + rest);
                },
                None => {},
            }
        }
        floor = r.hi;
        at = c + 1;
    }
}

/// The ports from `from` on that are in none of the ranges from index `i`
/// on, as ranges.
pub open spec fn gaps(v: Seq<PortRange>, i: int, from: int) -> Seq<PortRange>
    decreases v.len() - i,
{
    if i >= v.len() {
        if from <= 65535 {
            seq![PortRange { lo: from as u16, hi: 65535 }]
        } else {
            Seq::empty()
        }
    } else {
        let gap = if v[i].lo > from {
            seq![PortRange { lo: from as u16, hi: (v[i].lo - 1) as u16 }]
        } else {
            Seq::empty()
        };
        gap + gaps(v, i + 1, v[i].hi + 1)
    }
}

/// `accept`
pub open spec fn text_accept() -> Seq<u8> {
    seq![97u8, 99, 99, 101, 112, 116]
}

/// `reject`
pub open spec fn text_reject() -> Seq<u8> {
    seq![114u8, 101, 106, 101, 99, 116]
}

/// The ports that a policy allows, as ranges in order: those that were
/// `listed` where `kind` is `accept`, all others where it is `reject`.  No
/// policy where the list could not be read or the kind is neither.
pub open spec fn policy_of(kind: Seq<u8>, listed: Option<Seq<PortRange>>) -> Option<Seq<PortRange>> {
    match listed {
        None => None,
        Some(v) => if kind == text_accept() {
            Some(v)
        } else if kind == text_reject() {
            Some(gaps(v, 0, 1))
        } else {
            None
        },
    }
}

/// A policy that says which ports a relay lets traffic leave to.
#[derive(Clone, Debug)]
pub struct PortPolicy {
    /// The ports that are allowed, as ranges in order.
    allowed: Vec<PortRange>,
}

impl View for PortPolicy {
    type V = Seq<PortRange>;

    closed spec fn view(&self) -> Seq<PortRange> {
        self.allowed@
    }
}

impl PortPolicy {
    /// The policy that allows no port.
    pub fn new_reject_all() -> (p: PortPolicy)
        ensures
            p@ == Seq::<PortRange>::empty(),
    {
        PortPolicy { allowed: Vec::new() }
    }

    /// Whether the policy allows `port`.
    pub fn allows_port(&self, port: u16) -> (r: bool)
        ensures
            r == exists|i: int| 0 <= i < self@.len() && (#[trigger] self@[i]).lo <= port <= self@[i].hi,
    {
        let mut i: usize = 0;
        while i < self.allowed.len()
            invariant
                i <= self.allowed@.len(),
                forall|j: int|
                    0 <= j < i ==> !((#[trigger] self.allowed@[j]).lo <= port
                        <= self.allowed@[j].hi),
            decreases self.allowed.len() - i,
        {
            if self.allowed[i].lo <= port && port <= self.allowed[i].hi {
                proof {
                    assert(self@[i as int].lo <= port <= self@[i as int].hi);
                }
                return true;
            }
            i += 1;
        }
        false
    }

    /// The ranges of ports that the policy allows, in order.
    pub fn ranges(&self) -> (r: Vec<PortRange>)
        ensures
            r@ == self@,
    {
        self.allowed.clone()
    }

    /// Make a policy of a kind, `accept` or `reject`, and of the ranges
    /// that were read from its list of ports.
    pub fn from_listed(kind: &[u8], listed: Option<Vec<PortRange>>) -> (r: Option<PortPolicy>)
        requires
            listed is Some ==> ranges_ordered(listed->0@),
        ensures
            match policy_of(
                kind@,
                match listed {
                    Some(v) => Some(v@),
                    None => None,
                },
            ) {
                Some(v) => r is Some && r->0@ == v,
                None => r is None,
            },
    {
        let listed = match listed {
            Some(v) => v,
            None => {
                return None;
            },
        };
        proof {
            assert([97u8, 99, 99, 101, 112, 116]@ =~= text_accept());
            assert([114u8, 101, 106, 101, 99, 116]@ =~= text_reject());
            assert(kind@.subrange(0, kind@.len() as int) =~= kind@);
        }
        if crate::netdoc::is_bytes(kind, 0, kind.len(), &[97, 99, 99, 101, 112, 116]) {
            Some(PortPolicy { allowed: listed })
        } else if crate::netdoc::is_bytes(kind, 0, kind.len(), &[114, 101, 106, 101, 99, 116]) {
            Some(PortPolicy { allowed: invert(&listed) })
        } else {
            None
        }
    }
}

/// The ranges of the ports from 1 on that are in none of the ranges `v`.
pub fn invert(v: &Vec<PortRange>) -> (r: Vec<PortRange>)
    requires
        ranges_ordered(v@),
    ensures
        r@ == gaps(v@, 0, 1),
{
    let mut out: Vec<PortRange> = Vec::new();
    let mut from: u32 = 1;
    let mut i: usize = 0;
    while i < v.len()
        invariant
            i <= v.len(),
            ranges_ordered(v@),
            1 <= from <= 65536,
            i < v.len() ==> from <= v@[i as int].lo,
            gaps(v@, 0, 1) == out@ + gaps(v@, i as int, from as int),
        decreases v.len() - i,
    {
        let r = v[i];
        let ghost before = out@;
        if r.lo as u32 > from {
            out.push(PortRange { lo: from as u16, hi: r.lo - 1 });
        }
        proof {
            let rest = gaps(v@, i + 1, r.hi + 1);
            if r.lo > from {
                let gap = PortRange { lo: from as u16, hi: (r.lo - 1) as u16 };
                assert(before + (seq![gap] + rest) =~= before.push(gap) + rest);
            } else {
                assert(before + (Seq::<PortRange>::empty() + rest) =~= before + rest);
            }
            if i + 1 < v.len() {
                assert(v@[i as int].hi < v@[i + 1].lo);
            }
        }
        from = r.hi as u32 + 1;
        i += 1;
    }
    if from <= 65535 {
        let ghost before = out@;
        out.push(PortRange { lo: from as u16, hi: 65535 });
        proof {
            assert(before + seq![PortRange { lo: from as u16, hi: 65535 }] =~= out@);
        }
    } else {
        proof {
            assert(out@ + Seq::<PortRange>::empty() =~= out@);
        }
    }
    out
}

/// A time of day on a day of the calendar, to the second.
#[derive(Clone, Copy, Debug, PartialEq, Eq, Structural)]
pub struct Iso8601TimeSp {
    /// The year, from 0 to 9999.
    pub year: u16,
    /// The month, from 1 to 12.
    pub month: u8,
    /// The day of the month, from 1 on.
    pub day: u8,
    /// The hour, from 0 to 23.
    pub hour: u8,
    /// The minute, from 0 to 59.
    pub minute: u8,
    /// The second, from 0 to 59.
    pub second: u8,
}

/// Whether `year` is a leap year.
pub open spec fn is_leap_year(year: int) -> bool {
    (year % 4 == 0 && year % 100 != 0) || year % 400 == 0
}

/// The number of days in a month.
pub open spec fn days_in_month(year: int, month: int) -> int {
    if month == 2 {
        if is_leap_year(year) {
            29
        } else {
            28
        }
    } else if month == 4 || month == 6 || month == 9 || month == 11 {
        30
    } else {
        31
    }
}

/// Whether the byte is a decimal digit.
pub open spec fn is_digit(c: u8) -> bool {
    48 <= c <= 57
}

/// The number that the two digits at offset `i` stand for.
pub open spec fn two_digits(s: Seq<u8>, i: int) -> int {
    (s[i] - 48) * 10 + (s[i + 1] - 48)
}

/// Whether `t` has the shape `YYYY-MM-DD HH:MM:SS`.
pub open spec fn time_shape(t: Seq<u8>) -> bool {
    &&& t.len() == 19
    &&& t[4] == 45 && t[7] == 45 && t[10] == 32 && t[13] == 58 && t[16] == 58
    &&& forall|i: int|
        0 <= i < 19 && i != 4 && i != 7 && i != 10 && i != 13 && i != 16 ==> is_digit(
            #[trigger] t[i],
        )
}

/// The time that the text `t` names, in the form `YYYY-MM-DD HH:MM:SS`.
pub open spec fn time_of(t: Seq<u8>) -> Option<Iso8601TimeSp> {
    if !time_shape(t) {
        None
    } else {
        let year = two_digits(t, 0) * 100 + two_digits(t, 2);
        let month = two_digits(t, 5);
        let day = two_digits(t, 8);
        let hour = two_digits(t, 11);
        let minute = two_digits(t, 14);
        let second = two_digits(t, 17);
        if 1 <= month <= 12 && 1 <= day <= days_in_month(year, month) && hour <= 23 && minute
            <= 59 && second <= 59 {
            Some(
                Iso8601TimeSp {
                    year: year as u16,
                    month: month as u8,
                    day: day as u8,
                    hour: hour as u8,
                    minute: minute as u8,
                    second: second as u8,
                },
            )
        } else {
            None
        }
    }
}


/// The number of days in the months of `year` before `month`.
pub open spec fn days_before_month(year: int, month: int) -> int
    decreases month,
{
    if month <= 1 {
        0
    } else {
        days_before_month(year, month - 1) + days_in_month(year, month - 1)
    }
}

/// The number of days in the years from 1 to `year - 1`.
pub open spec fn days_before_year(year: int) -> int {
    let y = year - 1;
    365 * y + y / 4 - y / 100 + y / 400
}

/// The number of seconds from the start of 1970 to `t`, in a calendar
/// without leap seconds.
pub open spec fn seconds_since_1970(t: Iso8601TimeSp) -> int {
    let days = days_before_year(t.year as int) - days_before_year(1970) + days_before_month(
        t.year as int,
        t.month as int,
    ) + (t.day - 1);
    days * 86400 + t.hour * 3600 + t.minute * 60 + t.second
}

impl Iso8601TimeSp {
    /// Whether the fields are those of a time: what `parse_time` gives.
    pub open spec fn well_formed(&self) -> bool {
        &&& self.year <= 9999
        &&& 1 <= self.month <= 12
        &&& 1 <= self.day <= days_in_month(self.year as int, self.month as int)
        &&& self.hour <= 23
        &&& self.minute <= 59
        &&& self.second <= 59
    }

    /// The number of seconds from the start of 1970 to this time, or
    /// `None` for a time before that or for fields that are no time.
    pub fn unix_seconds(&self) -> (r: Option<u64>)
        ensures
            r is Some <==> self.well_formed() && self.year >= 1970,
            r is Some ==> r->0 == seconds_since_1970(*self),
    {
        if self.year < 1970 || self.year > 9999 || self.month < 1 || self.month > 12 {
            return None;
        }
        let year: u64 = self.year as u64;
        let leap = (year % 4 == 0 && year % 100 != 0) || year % 400 == 0;
        let mut days: u64 = 0;
        let mut m: u8 = 1;
        while m < self.month
            invariant
                1 <= m <= self.month <= 12,
                year == self.year,
                leap == is_leap_year(year as int),
                days == days_before_month(year as int, m as int),
                days <= 31 * (m - 1),
            decreases self.month - m,
        {
            let len: u64 = if m == 2 {
                if leap {
                    29
                } else {
                    28
                }
            } else if m == 4 || m == 6 || m == 9 || m == 11 {
                30
            } else {
                31
            };
            days = days + len;
            m += 1;
        }
        let in_month: u8 = if self.month == 2 {
            if leap {
                29
            } else {
                28
            }
        } else if self.month == 4 || self.month == 6 || self.month == 9 || self.month == 11 {
            30
        } else {
            31
        };
        if self.day < 1 || self.day > in_month || self.hour > 23 || self.minute > 59
            || self.second > 59 {
            return None;
        }
        let y: u64 = year - 1;
        let before: u64 = 365 * y + y / 4 - y / 100 + y / 400;
        // The days in the years from 1 to 1969.
        let epoch: u64 = 719162;
        assert(days_before_year(1970) == 719162);
        assert(before >= epoch);
        let total_days: u64 = before - epoch + days + (self.day as u64 - 1);
        Some(
            total_days * 86400 + self.hour as u64 * 3600 + self.minute as u64 * 60
                + self.second as u64,
        )
    }
}

/// Read the two digits at offset `i`.
fn read_two_digits(s: &[u8], i: usize) -> (r: u8)
    requires
        i + 1 < s.len(),
        is_digit(s@[i as int]),
        is_digit(s@[i + 1]),
    ensures
        r == two_digits(s@, i as int),
        r <= 99,
{
    (s[i] - 48) * 10 + (s[i + 1] - 48)
}

/// Read the time that `s[a..b]` names.
pub fn parse_time(s: &[u8], a: usize, b: usize) -> (r: Option<Iso8601TimeSp>)
    requires
        a <= b <= s.len(),
    ensures
        r == time_of(s@.subrange(a as int, b as int)),
        r is Some ==> r->0.well_formed(),
{
    let t = slice_subrange(s, a, b);
    if t.len() != 19 {
        return None;
    }
    if !(t[4] == 45 && t[7] == 45 && t[10] == 32 && t[13] == 58 && t[16] == 58) {
        return None;
    }
    let mut i: usize = 0;
    while i < 19
        invariant
            i <= 19,
            t@.len() == 19,
            t@ == s@.subrange(a as int, b as int),
            forall|j: int|
                0 <= j < i && j != 4 && j != 7 && j != 10 && j != 13 && j != 16 ==> is_digit(
                    #[trigger] t@[j],
                ),
        decreases 19 - i,
    {
        if i != 4 && i != 7 && i != 10 && i != 13 && i != 16 && !(48 <= t[i] && t[i] <= 57) {
            return None;
        }
        i += 1;
    }
    let year: u16 = (read_two_digits(t, 0) as u16) * 100 + read_two_digits(t, 2) as u16;
    let month = read_two_digits(t, 5);
    let day = read_two_digits(t, 8);
    let hour = read_two_digits(t, 11);
    let minute = read_two_digits(t, 14);
    let second = read_two_digits(t, 17);
    if !(1 <= month && month <= 12) {
        return None;
    }
    let leap = (year % 4 == 0 && year % 100 != 0) || year % 400 == 0;
    let days: u8 = if month == 2 {
        if leap {
            29
        } else {
            28
        }
    } else if month == 4 || month == 6 || month == 9 || month == 11 {
        30
    } else {
        31
    };
    if 1 <= day && day <= days && hour <= 23 && minute <= 59 && second <= 59 {
        Some(Iso8601TimeSp { year, month, day, hour, minute, second })
    } else {
        None
    }
}

} // verus!
