//! Socket addresses in their textual form: the accepted grammar
//! (`a.b.c.d:port` and `[ipv6%scope]:port`), a parser for it, and the
//! canonical text an address is written back as.
use vstd::prelude::*;
use crate::text::{
    all_digits, all_hex, dec_text, dec_val, digit_val, hex_digit_val, hex_text, hex_val, is_digit,
    is_hex, push_dec, push_hex, lemma_split_nonempty, split, split_chars, views,
};

verus! {

broadcast use vstd::array::group_array_axioms;

// ---------------------------------------------------------------------------
// Values
// ---------------------------------------------------------------------------

/// A parsed socket address.
#[derive(Clone, Copy, Debug)]
pub enum SocketAddress {
    V4 { octets: [u8; 4], port: u16 },
    V6 { segments: [u16; 8], port: u16, scope_id: u32 },
}

/// The mathematical content of a socket address.
pub enum AddrModel {
    V4 { octets: Seq<u8>, port: u16 },
    V6 { words: Seq<u16>, port: u16, scope_id: u32 },
}

impl View for SocketAddress {
    type V = AddrModel;

    open spec fn view(&self) -> AddrModel {
        match *self {
            SocketAddress::V4 { octets, port } => AddrModel::V4 { octets: octets@, port },
            SocketAddress::V6 { segments, port, scope_id } => AddrModel::V6 {
                words: segments@,
                port,
                scope_id,
            },
        }
    }
}

pub open spec fn opt_view(r: Option<SocketAddress>) -> Option<AddrModel> {
    match r {
        Some(a) => Some(a@),
        None => None,
    }
}

/// A model that some `SocketAddress` can hold.
pub open spec fn model_wf(m: AddrModel) -> bool {
    match m {
        AddrModel::V4 { octets, .. } => octets.len() == 4,
        AddrModel::V6 { words, .. } => words.len() == 8,
    }
}

// ---------------------------------------------------------------------------
// Grammar
// ---------------------------------------------------------------------------

/// A decimal numeral of at least one digit whose value is at most `max`.
pub open spec fn numeral_ok(t: Seq<char>, max: nat) -> bool {
    t.len() >= 1 && all_digits(t) && dec_val(t) <= max
}

/// One part of a dotted quad: one to three digits, no leading zero, at most 255.
pub open spec fn octet_ok(t: Seq<char>) -> bool {
    &&& 1 <= t.len() <= 3
    &&& all_digits(t)
    &&& (t.len() == 1 || t[0] != '0')
    &&& dec_val(t) <= 255
}

/// The four octets of the dotted quad `t`, if it is one.
pub open spec fn ipv4_model(t: Seq<char>) -> Option<Seq<u8>> {
    let p = split(t, '.');
    if p.len() == 4 && (forall|i: int| 0 <= i < 4 ==> octet_ok(#[trigger] p[i])) {
        Some(Seq::new(4, |i: int| dec_val(p[i]) as u8))
    } else {
        None
    }
}

/// One group of an IPv6 address: one to four hexadecimal digits.
pub open spec fn hex_group_ok(t: Seq<char>) -> bool {
    1 <= t.len() <= 4 && all_hex(t)
}

/// The two 16-bit words a dotted quad stands for inside an IPv6 address.
pub open spec fn quad_words(q: Seq<u8>) -> Seq<u16> {
    seq![(q[0] * 256 + q[1]) as u16, (q[2] * 256 + q[3]) as u16]
}

/// The words of a colon-separated run of groups; with `allow_v4` the last
/// piece may instead be a dotted quad, standing for two words.
pub open spec fn words(t: Seq<char>, allow_v4: bool) -> Option<Seq<u16>> {
    if t.len() == 0 {
        Some(Seq::empty())
    } else {
        let p = split(t, ':');
        let n = p.len();
        if forall|i: int| 0 <= i < n ==> hex_group_ok(#[trigger] p[i]) {
            Some(Seq::new(n, |i: int| hex_val(p[i]) as u16))
        } else if allow_v4 && (forall|i: int| 0 <= i < n - 1 ==> hex_group_ok(#[trigger] p[i]))
            && ipv4_model(p[n - 1]) is Some {
            Some(
                Seq::new((n - 1) as nat, |i: int| hex_val(p[i]) as u16) + quad_words(
                    ipv4_model(p[n - 1])->0,
                ),
            )
        } else {
            None
        }
    }
}

/// `t` has the compression marker `::` starting at `k`.
pub open spec fn double_colon_at(t: Seq<char>, k: int) -> bool {
    0 <= k && k + 1 < t.len() && t[k] == ':' && t[k + 1] == ':'
}

/// The eight words of the IPv6 address text `t`, if it is one: eight
/// groups (the last two may be a dotted quad), or at most seven around a
/// single `::` that stands for the missing zero words.
pub open spec fn ipv6_model(t: Seq<char>) -> Option<Seq<u16>> {
    if exists|k: int| double_colon_at(t, k) {
        let k = choose|k: int| double_colon_at(t, k);
        if exists|k2: int| k2 != k && double_colon_at(t, k2) {
            None
        } else {
            let h = words(t.take(k), false);
            let w = words(t.skip(k + 2), true);
            if h is Some && w is Some && h->0.len() + w->0.len() <= 7 {
                Some(
                    h->0 + Seq::new((8 - h->0.len() - w->0.len()) as nat, |i: int| 0u16)
                        + w->0,
                )
            } else {
                None
            }
        }
    } else {
        let w = words(t, true);
        if w is Some && w->0.len() == 8 {
            w
        } else {
            None
        }
    }
}

/// The address the text `s` denotes, if it is one: `a.b.c.d:port`, or
/// `[ipv6]:port` with an optional `%scope` before the bracket.
pub open spec fn parse_model(s: Seq<char>) -> Option<AddrModel> {
    if s.len() > 0 && s[0] == '[' {
        let q = split(s.drop_first(), ']');
        if q.len() == 2 && q[1].len() >= 1 && q[1][0] == ':' && numeral_ok(
            q[1].drop_first(),
            65535,
        ) {
            let port = dec_val(q[1].drop_first()) as u16;
            let r = split(q[0], '%');
            if r.len() == 1 && ipv6_model(r[0]) is Some {
                Some(AddrModel::V6 { words: ipv6_model(r[0])->0, port, scope_id: 0 })
            } else if r.len() == 2 && ipv6_model(r[0]) is Some && numeral_ok(
                r[1],
                0xffff_ffff,
            ) {
                Some(
                    AddrModel::V6 {
                        words: ipv6_model(r[0])->0,
                        port,
                        scope_id: dec_val(r[1]) as u32,
                    },
                )
            } else {
                None
            }
        } else {
            None
        }
    } else {
        let q = split(s, ':');
        if q.len() == 2 && ipv4_model(q[0]) is Some && numeral_ok(q[1], 65535) {
            Some(AddrModel::V4 { octets: ipv4_model(q[0])->0, port: dec_val(q[1]) as u16 })
        } else {
            None
        }
    }
}

// ---------------------------------------------------------------------------
// Canonical text
// ---------------------------------------------------------------------------

/// `a.b.c.d` in decimal.
pub open spec fn v4_text(o: Seq<u8>) -> Seq<char> {
    dec_text(o[0] as nat) + seq!['.'] + dec_text(o[1] as nat) + seq!['.'] + dec_text(
        o[2] as nat,
    ) + seq!['.'] + dec_text(o[3] as nat)
}

/// Words in lower-case hex, separated by colons.
pub open spec fn join_hex(w: Seq<u16>) -> Seq<char>
    decreases w.len(),
{
    if w.len() == 0 {
        Seq::empty()
    } else if w.len() == 1 {
        hex_text(w[0] as nat)
    } else {
        join_hex(w.drop_last()) + seq![':'] + hex_text(w.last() as nat)
    }
}

/// Words `s .. s + l` of `w` are all zero.
pub open spec fn zero_run(w: Seq<u16>, s: int, l: int) -> bool {
    &&& 0 <= s
    &&& 0 <= l
    &&& s + l <= w.len()
    &&& forall|k: int| s <= k < s + l ==> w[k] == 0
}

/// `s, l` is the longest run of zero words, the first of them if several
/// are equally long.
pub open spec fn longest_zero_run(w: Seq<u16>, s: int, l: int) -> bool {
    &&& zero_run(w, s, l)
    &&& forall|s2: int, l2: int| zero_run(w, s2, l2) ==> l2 <= l
    &&& forall|s2: int| 0 <= s2 < s ==> !zero_run(w, s2, l)
}

/// The words form an IPv4-mapped address `::ffff:a.b.c.d`.
pub open spec fn is_v4_mapped(w: Seq<u16>) -> bool {
    w[0] == 0 && w[1] == 0 && w[2] == 0 && w[3] == 0 && w[4] == 0 && w[5] == 0xffff
}

/// The octets of the IPv4 address in the last two words.
pub open spec fn mapped_octets(w: Seq<u16>) -> Seq<u8> {
    seq![(w[6] / 256) as u8, (w[6] % 256) as u8, (w[7] / 256) as u8, (w[7] % 256) as u8]
}

/// Canonical IPv6 text: `::ffff:a.b.c.d` for IPv4-mapped addresses;
/// otherwise lower-case groups with the longest run of two or more zero
/// words (the first, on a tie) written as `::`.
pub open spec fn ipv6_text(w: Seq<u16>) -> Seq<char> {
    if is_v4_mapped(w) {
        seq![':', ':', 'f', 'f', 'f', 'f', ':'] + v4_text(mapped_octets(w))
    } else {
        let p = choose|p: (int, int)| longest_zero_run(w, p.0, p.1);
        if p.1 > 1 {
            join_hex(w.take(p.0)) + seq![':', ':'] + join_hex(w.skip(p.0 + p.1))
        } else {
            join_hex(w)
        }
    }
}

/// The address part alone, as it is written without a port.
pub open spec fn ip_text(m: AddrModel) -> Seq<char> {
    match m {
        AddrModel::V4 { octets, .. } => v4_text(octets),
        AddrModel::V6 { words, .. } => ipv6_text(words),
    }
}

/// Canonical text of a socket address: `a.b.c.d:port` or
/// `[ipv6]:port`, with `%scope` inside the brackets when the scope is set.
pub open spec fn model_text(m: AddrModel) -> Seq<char> {
    match m {
        AddrModel::V4 { octets, port } => v4_text(octets) + seq![':'] + dec_text(port as nat),
        AddrModel::V6 { words, port, scope_id } => seq!['['] + ipv6_text(words) + (if scope_id
            == 0 {
            Seq::empty()
        } else {
            seq!['%'] + dec_text(scope_id as nat)
        }) + seq![']', ':'] + dec_text(port as nat),
    }
}

/// The wildcard address (`0.0.0.0` or `::`).
pub open spec fn is_unspecified(m: AddrModel) -> bool {
    match m {
        AddrModel::V4 { octets, .. } => octets[0] == 0 && octets[1] == 0 && octets[2] == 0
            && octets[3] == 0,
        AddrModel::V6 { words, .. } => words[0] == 0 && words[1] == 0 && words[2] == 0 && words[3]
            == 0 && words[4] == 0 && words[5] == 0 && words[6] == 0 && words[7] == 0,
    }
}

pub open spec fn port_of(m: AddrModel) -> u16 {
    match m {
        AddrModel::V4 { port, .. } => port,
        AddrModel::V6 { port, .. } => port,
    }
}

// ---------------------------------------------------------------------------
// Numerals
// ---------------------------------------------------------------------------

proof fn lemma_dec_prefix_le(s: Seq<char>, i: int)
    requires
        all_digits(s),
        0 <= i <= s.len(),
    ensures
        dec_val(s.take(i)) <= dec_val(s),
    decreases s.len(),
{
    if i < s.len() {
        let t = s.drop_last();
        assert(t.take(i) =~= s.take(i));
        assert(all_digits(t)) by {
            assert forall|k: int| 0 <= k < t.len() implies is_digit(#[trigger] t[k]) by {
                assert(t[k] == s[k]);
            }
        }
        lemma_dec_prefix_le(t, i);
    } else {
        assert(s.take(i) =~= s);
    }
}

fn digit_value(c: char) -> (r: Option<u64>)
    ensures
        r is Some <==> is_digit(c),
        r matches Some(d) ==> d == digit_val(c) && d < 10,
{
    let u = c as u32;
    if 48 <= u && u <= 57 {
        Some((u - 48) as u64)
    } else {
        None
    }
}

/// The value of the decimal numeral `t` when it is one of at most `max`.
pub fn parse_dec(t: &Vec<char>, max: u64) -> (r: Option<u64>)
    requires
        max <= 0xffff_ffff,
    ensures
        r is Some <==> numeral_ok(t@, max as nat),
        r matches Some(v) ==> v == dec_val(t@),
{
    if t.len() == 0 {
        return None;
    }
    let mut acc: u64 = 0;
    let mut i: usize = 0;
    while i < t.len()
        invariant
            i <= t.len(),
            max <= 0xffff_ffff,
            all_digits(t@.take(i as int)),
            acc == dec_val(t@.take(i as int)),
            acc <= max,
        decreases t.len() - i,
    {
        let d = match digit_value(t[i]) {
            Some(d) => d,
            None => {
                assert(!all_digits(t@));
                return None;
            },
        };
        let next = acc * 10 + d;
        assert(t@.take(i + 1).drop_last() =~= t@.take(i as int));
        assert(dec_val(t@.take(i + 1)) == next);
        assert(all_digits(t@.take(i + 1))) by {
            assert forall|k: int| 0 <= k < i + 1 implies is_digit(#[trigger] t@.take(i + 1)[k]) by {
                if k < i {
                    assert(t@.take(i + 1)[k] == t@.take(i as int)[k]);
                }
            }
        }
        if next > max {
            proof {
                if all_digits(t@) {
                    lemma_dec_prefix_le(t@, i + 1);
                }
            }
            return None;
        }
        acc = next;
        i = i + 1;
    }
    assert(t@.take(t.len() as int) =~= t@);
    Some(acc)
}

/// One dotted-quad part.
fn parse_octet(t: &Vec<char>) -> (r: Option<u8>)
    ensures
        r is Some <==> octet_ok(t@),
        r matches Some(v) ==> v == dec_val(t@),
{
    if t.len() > 3 {
        return None;
    }
    if t.len() > 1 && t[0] == '0' {
        return None;
    }
    match parse_dec(t, 255) {
        Some(v) => Some(v as u8),
        None => None,
    }
}

pub open spec fn pow16(i: nat) -> nat
    decreases i,
{
    if i == 0 {
        1
    } else {
        16 * pow16((i - 1) as nat)
    }
}

fn hex_value(c: char) -> (r: Option<u64>)
    ensures
        r is Some <==> is_hex(c),
        r matches Some(d) ==> d == hex_digit_val(c) && d < 16,
{
    let u = c as u32;
    if 48 <= u && u <= 57 {
        Some((u - 48) as u64)
    } else if 97 <= u && u <= 102 {
        Some((u - 87) as u64)
    } else if 65 <= u && u <= 70 {
        Some((u - 55) as u64)
    } else {
        None
    }
}

/// One IPv6 group.
fn parse_hex_group(t: &Vec<char>) -> (r: Option<u16>)
    ensures
        r is Some <==> hex_group_ok(t@),
        r matches Some(v) ==> v == hex_val(t@),
{
    if t.len() == 0 || t.len() > 4 {
        return None;
    }
    let mut acc: u64 = 0;
    let mut i: usize = 0;
    while i < t.len()
        invariant
            i <= t.len() <= 4,
            all_hex(t@.take(i as int)),
            acc == hex_val(t@.take(i as int)),
            acc < pow16(i as nat),
        decreases t.len() - i,
    {
        let d = match hex_value(t[i]) {
            Some(d) => d,
            None => {
                assert(!all_hex(t@));
                return None;
            },
        };
        assert(pow16((i + 1) as nat) == 16 * pow16(i as nat));
        assert(pow16(i as nat) <= 4096) by {
            reveal_with_fuel(pow16, 5);
        }
        let next = acc * 16 + d;
        assert(t@.take(i + 1).drop_last() =~= t@.take(i as int));
        assert(all_hex(t@.take(i + 1))) by {
            assert forall|k: int| 0 <= k < i + 1 implies is_hex(#[trigger] t@.take(i + 1)[k]) by {
                if k < i {
                    assert(t@.take(i + 1)[k] == t@.take(i as int)[k]);
                }
            }
        }
        acc = next;
        i = i + 1;
    }
    assert(t@.take(t.len() as int) =~= t@);
    assert(pow16(t.len() as nat) <= 65536) by {
        reveal_with_fuel(pow16, 5);
    }
    Some(acc as u16)
}

// ---------------------------------------------------------------------------
// Parsing
// ---------------------------------------------------------------------------

/// The characters `a .. b` of `v`.
pub fn sub_chars(v: &Vec<char>, a: usize, b: usize) -> (r: Vec<char>)
    requires
        a <= b <= v.len(),
    ensures
        r@ == v@.subrange(a as int, b as int),
{
    let mut r: Vec<char> = Vec::new();
    let mut k: usize = a;
    while k < b
        invariant
            a <= k <= b <= v.len(),
            r@ == v@.subrange(a as int, k as int),
        decreases b - k,
    {
        r.push(v[k]);
        assert(v@.subrange(a as int, k + 1) =~= v@.subrange(a as int, k as int).push(v@[k as int]));
        k = k + 1;
    }
    r
}

/// A dotted quad.
pub fn parse_ipv4(t: &Vec<char>) -> (r: Option<[u8; 4]>)
    ensures
        r matches Some(a) ==> ipv4_model(t@) == Some(a@),
        r is None ==> ipv4_model(t@) is None,
{
    let p = split_chars(t, '.');
    if p.len() != 4 {
        return None;
    }
    let ghost ps = split(t@, '.');
    assert(p@[0]@ == ps[0] && p@[1]@ == ps[1] && p@[2]@ == ps[2] && p@[3]@ == ps[3]);
    let a = match parse_octet(&p[0]) {
        Some(v) => v,
        None => {
            return None;
        },
    };
    let b = match parse_octet(&p[1]) {
        Some(v) => v,
        None => {
            return None;
        },
    };
    let c = match parse_octet(&p[2]) {
        Some(v) => v,
        None => {
            return None;
        },
    };
    let d = match parse_octet(&p[3]) {
        Some(v) => v,
        None => {
            return None;
        },
    };
    let ip: [u8; 4] = [a, b, c, d];
    assert(forall|i: int| 0 <= i < 4 ==> octet_ok(#[trigger] ps[i]));
    assert(ip@ =~= Seq::new(4, |i: int| dec_val(ps[i]) as u8));
    Some(ip)
}

/// The words of a colon-separated run of groups (see `words`).
fn parse_words(t: &Vec<char>, allow_v4: bool) -> (r: Option<Vec<u16>>)
    ensures
        r matches Some(v) ==> words(t@, allow_v4) == Some(v@),
        r is None ==> words(t@, allow_v4) is None,
{
    if t.len() == 0 {
        let v: Vec<u16> = Vec::new();
        assert(v@ =~= Seq::<u16>::empty());
        return Some(v);
    }
    let p = split_chars(t, ':');
    let ghost ps = split(t@, ':');
    let n = p.len();
    proof {
        lemma_split_nonempty(t@, ':');
    }
    assert(n >= 1);
    let mut vals: Vec<u16> = Vec::new();
    let mut i: usize = 0;
    while i + 1 < n
        invariant
            n == p.len() == ps.len(),
            ps == split(t@, ':'),
            t@.len() > 0,
            n >= 1,
            views(p@) == ps,
            i + 1 <= n,
            forall|k: int| 0 <= k < i ==> hex_group_ok(#[trigger] ps[k]),
            vals@ =~= Seq::new(i as nat, |k: int| hex_val(ps[k]) as u16),
        decreases n - i,
    {
        assert(p@[i as int]@ == ps[i as int]);
        match parse_hex_group(&p[i]) {
            Some(g) => {
                vals.push(g);
            },
            None => {
                assert(!hex_group_ok(ps[i as int]));
                assert(!(forall|k: int| 0 <= k < n - 1 ==> hex_group_ok(#[trigger] ps[k])));
                assert(!(forall|k: int| 0 <= k < n ==> hex_group_ok(#[trigger] ps[k])));
                return None;
            },
        }
        i = i + 1;
    }
    assert(p@[n - 1]@ == ps[n - 1]);
    match parse_hex_group(&p[n - 1]) {
        Some(g) => {
            vals.push(g);
            assert(forall|k: int| 0 <= k < n ==> hex_group_ok(#[trigger] ps[k]));
            assert(vals@ =~= Seq::new(n as nat, |k: int| hex_val(ps[k]) as u16));
            return Some(vals);
        },
        None => {},
    }
    if !allow_v4 {
        return None;
    }
    match parse_ipv4(&p[n - 1]) {
        Some(q) => {
            let hi = (q[0] as u16) * 256 + (q[1] as u16);
            let lo = (q[2] as u16) * 256 + (q[3] as u16);
            let ghost before = vals@;
            vals.push(hi);
            vals.push(lo);
            assert(vals@ =~= before + quad_words(q@));
            Some(vals)
        },
        None => None,
    }
}

/// `h`, then enough zero words to make eight, then `w`.
fn assemble_words(h: &Vec<u16>, w: &Vec<u16>) -> (all: Vec<u16>)
    requires
        h.len() + w.len() <= 7,
    ensures
        all@ == h@ + Seq::new((8 - h.len() - w.len()) as nat, |i: int| 0u16) + w@,
        all.len() == 8,
{
    let mut all: Vec<u16> = Vec::new();
    let mut i: usize = 0;
    while i < h.len()
        invariant
            i <= h.len(),
            h.len() + w.len() <= 7,
            all@ =~= h@.take(i as int),
        decreases h.len() - i,
    {
        all.push(h[i]);
        assert(h@.take(i + 1) =~= h@.take(i as int).push(h@[i as int]));
        i = i + 1;
    }
    assert(h@.take(h.len() as int) =~= h@);
    let zeros = 8 - h.len() - w.len();
    let mut z: usize = 0;
    while z < zeros
        invariant
            z <= zeros,
            h.len() + w.len() <= 7,
            zeros == 8 - h.len() - w.len(),
            all@ =~= h@ + Seq::new(z as nat, |i: int| 0u16),
        decreases zeros - z,
    {
        all.push(0);
        z = z + 1;
    }
    let mut j: usize = 0;
    while j < w.len()
        invariant
            j <= w.len(),
            h.len() + w.len() <= 7,
            zeros == 8 - h.len() - w.len(),
            all@ =~= h@ + Seq::new(zeros as nat, |i: int| 0u16) + w@.take(j as int),
        decreases w.len() - j,
    {
        all.push(w[j]);
        assert(w@.take(j + 1) =~= w@.take(j as int).push(w@[j as int]));
        j = j + 1;
    }
    assert(w@.take(w.len() as int) =~= w@);
    all
}

/// The eight words of an IPv6 address text.
pub fn parse_ipv6(t: &Vec<char>) -> (r: Option<[u16; 8]>)
    ensures
        r matches Some(a) ==> ipv6_model(t@) == Some(a@),
        r is None ==> ipv6_model(t@) is None,
{
    let n = t.len();
    let mut first: Option<usize> = None;
    let mut second = false;
    let mut k: usize = 0;
    let last: usize = if n == 0 { 0 } else { n - 1 };
    while k < last
        invariant
            n == t@.len(),
            last == if n == 0 { 0 } else { n - 1 },
            k <= last,
            first is None ==> forall|j: int| 0 <= j < k ==> !double_colon_at(t@, j),
            first matches Some(f) ==> f < k && double_colon_at(t@, f as int),
            !second ==> forall|j: int| 0 <= j < k && double_colon_at(t@, j) ==> first == Some(
                j as usize,
            ),
            second ==> first is Some && exists|j: int|
                j != first->0 && double_colon_at(t@, j),
        decreases n - k,
    {
        if t[k] == ':' && t[k + 1] == ':' {
            if first.is_none() {
                first = Some(k);
            } else {
                if !second {
                    assert(k as int != first->0 && double_colon_at(t@, k as int));
                }
                second = true;
            }
        }
        k = k + 1;
    }
    assert(forall|j: int| k <= j ==> !double_colon_at(t@, j));
    match first {
        None => {
            assert(!exists|j: int| double_colon_at(t@, j));
            match parse_words(t, true) {
                Some(w) => {
                    if w.len() != 8 {
                        return None;
                    }
                    let a: [u16; 8] = [w[0], w[1], w[2], w[3], w[4], w[5], w[6], w[7]];
                    assert(a@ =~= w@);
                    Some(a)
                },
                None => None,
            }
        },
        Some(f) => {
            assert(double_colon_at(t@, f as int));
            let ghost kk = choose|j: int| double_colon_at(t@, j);
            if second {
                let ghost j2 = choose|j: int| j != f && double_colon_at(t@, j);
                assert(j2 != kk || f as int != kk);
                return None;
            }
            assert(kk == f);
            let head = sub_chars(t, 0, f);
            let tail = sub_chars(t, f + 2, n);
            assert(head@ =~= t@.take(f as int));
            assert(tail@ =~= t@.skip(f + 2));
            let h = match parse_words(&head, false) {
                Some(h) => h,
                None => {
                    return None;
                },
            };
            let w = match parse_words(&tail, true) {
                Some(w) => w,
                None => {
                    return None;
                },
            };
            if h.len() > 7 || w.len() > 7 - h.len() {
                return None;
            }
            let all = assemble_words(&h, &w);
            let a: [u16; 8] = [all[0], all[1], all[2], all[3], all[4], all[5], all[6], all[7]];
            assert(a@ =~= all@);
            Some(a)
        },
    }
}

/// The address the text `s` denotes, if any (see `parse_model`).
pub fn parse_socket_addr(s: &Vec<char>) -> (r: Option<SocketAddress>)
    ensures
        opt_view(r) == parse_model(s@),
{
    if s.len() > 0 && s[0] == '[' {
        let rest = sub_chars(s, 1, s.len());
        assert(rest@ =~= s@.drop_first());
        let q = split_chars(&rest, ']');
        let ghost qs = split(s@.drop_first(), ']');
        if q.len() != 2 {
            return None;
        }
        assert(q@[0]@ == qs[0] && q@[1]@ == qs[1]);
        if q[1].len() < 1 || q[1][0] != ':' {
            return None;
        }
        let port_text = sub_chars(&q[1], 1, q[1].len());
        assert(port_text@ =~= qs[1].drop_first());
        let port = match parse_dec(&port_text, 65535) {
            Some(p) => p as u16,
            None => {
                return None;
            },
        };
        let r = split_chars(&q[0], '%');
        let ghost rs = split(qs[0], '%');
        if r.len() == 1 {
            assert(r@[0]@ == rs[0]);
            match parse_ipv6(&r[0]) {
                Some(ip) => Some(SocketAddress::V6 { segments: ip, port, scope_id: 0 }),
                None => None,
            }
        } else if r.len() == 2 {
            assert(r@[0]@ == rs[0] && r@[1]@ == rs[1]);
            match parse_ipv6(&r[0]) {
                Some(ip) => match parse_dec(&r[1], 0xffff_ffff) {
                    Some(sc) => Some(SocketAddress::V6 { segments: ip, port, scope_id: sc as u32 }),
                    None => None,
                },
                None => None,
            }
        } else {
            None
        }
    } else {
        let q = split_chars(s, ':');
        let ghost qs = split(s@, ':');
        if q.len() != 2 {
            return None;
        }
        assert(q@[0]@ == qs[0] && q@[1]@ == qs[1]);
        match parse_ipv4(&q[0]) {
            Some(ip) => match parse_dec(&q[1], 65535) {
                Some(port) => Some(SocketAddress::V4 { octets: ip, port: port as u16 }),
                None => None,
            },
            None => None,
        }
    }
}

// ---------------------------------------------------------------------------
// Writing
// ---------------------------------------------------------------------------

fn push_v4(out: &mut Vec<char>, o: &[u8; 4])
    ensures
        final(out)@ == old(out)@ + v4_text(o@),
{
    push_dec(out, o[0] as u64);
    out.push('.');
    push_dec(out, o[1] as u64);
    out.push('.');
    push_dec(out, o[2] as u64);
    out.push('.');
    push_dec(out, o[3] as u64);
    assert(final(out)@ =~= old(out)@ + v4_text(o@));
}

/// Appends words `a .. b` of `w`, in hex, separated by colons.
fn push_join_hex(out: &mut Vec<char>, w: &[u16; 8], a: usize, b: usize)
    requires
        a <= b <= 8,
    ensures
        final(out)@ == old(out)@ + join_hex(w@.subrange(a as int, b as int)),
{
    let mut i: usize = a;
    assert(w@.subrange(a as int, a as int) =~= Seq::<u16>::empty());
    while i < b
        invariant
            a <= i <= b <= 8,
            w@.len() == 8,
            out@ == old(out)@ + join_hex(w@.subrange(a as int, i as int)),
        decreases b - i,
    {
        let ghost before = out@;
        if i > a {
            out.push(':');
        }
        push_hex(out, w[i] as u64);
        assert(w@.subrange(a as int, i + 1).drop_last() =~= w@.subrange(a as int, i as int));
        assert(w@.subrange(a as int, i + 1).last() == w@[i as int]);
        if i > a {
            assert(out@ =~= old(out)@ + join_hex(w@.subrange(a as int, i + 1)));
        } else {
            assert(out@ =~= old(out)@ + join_hex(w@.subrange(a as int, i + 1)));
        }
        i = i + 1;
    }
}

/// The longest (first, on a tie) run of zero words.
fn longest_zeros(w: &[u16; 8]) -> (r: (usize, usize))
    ensures
        longest_zero_run(w@, r.0 as int, r.1 as int),
        r.0 + r.1 <= 8,
{
    let mut best_s: usize = 0;
    let mut best_l: usize = 0;
    let mut cur_s: usize = 0;
    let mut cur_l: usize = 0;
    let mut i: usize = 0;
    while i < 8
        invariant
            w@.len() == 8,
            i <= 8,
            cur_s + cur_l == i,
            zero_run(w@, cur_s as int, cur_l as int),
            cur_s == 0 || w@[cur_s - 1] != 0,
            zero_run(w@, best_s as int, best_l as int),
            best_s + best_l <= i,
            forall|s2: int, l2: int|
                zero_run(w@, s2, l2) && s2 + l2 <= i ==> l2 <= best_l,
            forall|s2: int|
                0 <= s2 < best_s && s2 + best_l <= i ==> !zero_run(w@, s2, best_l as int),
        decreases 8 - i,
    {
        if w[i] == 0 {
            cur_l = cur_l + 1;
            assert forall|s2: int, l2: int|
                zero_run(w@, s2, l2) && s2 + l2 == i + 1 implies l2 <= cur_l by {
                if l2 > cur_l {
                    assert(w@[cur_s - 1] == 0);
                }
            }
            if cur_l > best_l {
                best_s = cur_s;
                best_l = cur_l;
            }
        } else {
            assert forall|s2: int, l2: int|
                zero_run(w@, s2, l2) && s2 + l2 == i + 1 implies l2 == 0 by {
                if l2 > 0 {
                    assert(w@[i as int] == 0);
                }
            }
            cur_s = i + 1;
            cur_l = 0;
        }
        i = i + 1;
    }
    (best_s, best_l)
}

proof fn lemma_longest_unique(w: Seq<u16>, s1: int, l1: int, s2: int, l2: int)
    requires
        longest_zero_run(w, s1, l1),
        longest_zero_run(w, s2, l2),
    ensures
        s1 == s2,
        l1 == l2,
{
    assert(l2 <= l1);
    assert(l1 <= l2);
    if s1 < s2 {
        assert(!zero_run(w, s1, l2));
    }
    if s2 < s1 {
        assert(!zero_run(w, s2, l1));
    }
}

fn push_ipv6(out: &mut Vec<char>, w: &[u16; 8])
    ensures
        final(out)@ == old(out)@ + ipv6_text(w@),
{
    if w[0] == 0 && w[1] == 0 && w[2] == 0 && w[3] == 0 && w[4] == 0 && w[5] == 0xffff {
        out.push(':');
        out.push(':');
        out.push('f');
        out.push('f');
        out.push('f');
        out.push('f');
        out.push(':');
        let q: [u8; 4] = [(w[6] / 256) as u8, (w[6] % 256) as u8, (w[7] / 256) as u8, (w[7]
            % 256) as u8];
        let ghost mid = out@;
        push_v4(out, &q);
        assert(q@ =~= mapped_octets(w@));
        assert(out@ =~= old(out)@ + ipv6_text(w@));
    } else {
        let (s, l) = longest_zeros(w);
        let ghost pr: (int, int) = (s as int, l as int);
        assert(longest_zero_run(w@, pr.0, pr.1));
        let ghost ch = choose|p: (int, int)| longest_zero_run(w@, p.0, p.1);
        proof {
            lemma_longest_unique(w@, ch.0, ch.1, pr.0, pr.1);
        }
        if l > 1 {
            push_join_hex(out, w, 0, s);
            out.push(':');
            out.push(':');
            push_join_hex(out, w, s + l, 8);
            assert(w@.subrange(0, s as int) =~= w@.take(s as int));
            assert(w@.subrange((s + l) as int, 8) =~= w@.skip((s + l) as int));
            assert(out@ =~= old(out)@ + ipv6_text(w@));
        } else {
            push_join_hex(out, w, 0, 8);
            assert(w@.subrange(0, 8) =~= w@);
        }
    }
}

/// The canonical text of `a` (see `model_text`).
pub fn socket_addr_text(a: &SocketAddress) -> (r: Vec<char>)
    ensures
        r@ == model_text(a@),
{
    let mut out: Vec<char> = Vec::new();
    match a {
        SocketAddress::V4 { octets, port } => {
            push_v4(&mut out, octets);
            out.push(':');
            push_dec(&mut out, *port as u64);
            assert(out@ =~= model_text(a@));
        },
        SocketAddress::V6 { segments, port, scope_id } => {
            out.push('[');
            push_ipv6(&mut out, segments);
            let ghost mid = out@;
            if *scope_id != 0 {
                out.push('%');
                push_dec(&mut out, *scope_id as u64);
            }
            out.push(']');
            out.push(':');
            push_dec(&mut out, *port as u64);
            assert(out@ =~= model_text(a@));
        },
    }
    out
}

/// The address part of `a` alone (see `ip_text`).
pub fn ip_text_of(a: &SocketAddress) -> (r: Vec<char>)
    ensures
        r@ == ip_text(a@),
{
    let mut out: Vec<char> = Vec::new();
    match a {
        SocketAddress::V4 { octets, .. } => {
            push_v4(&mut out, octets);
        },
        SocketAddress::V6 { segments, .. } => {
            push_ipv6(&mut out, segments);
        },
    }
    assert(out@ =~= ip_text(a@));
    out
}

/// Whether `a` is the wildcard address.
pub fn is_unspecified_addr(a: &SocketAddress) -> (r: bool)
    ensures
        r == is_unspecified(a@),
{
    match a {
        SocketAddress::V4 { octets, .. } => {
            let o: [u8; 4] = *octets;
            o[0] == 0 && o[1] == 0 && o[2] == 0 && o[3] == 0
        },
        SocketAddress::V6 { segments, .. } => {
            let w: [u16; 8] = *segments;
            w[0] == 0 && w[1] == 0 && w[2] == 0 && w[3] == 0 && w[4] == 0 && w[5] == 0 && w[6]
                == 0 && w[7] == 0
        },
    }
}

/// The port of `a`.
pub fn port_number(a: &SocketAddress) -> (r: u16)
    ensures
        r == port_of(a@),
{
    match a {
        SocketAddress::V4 { port, .. } => *port,
        SocketAddress::V6 { port, .. } => *port,
    }
}

} // verus!
