//! The canonical text of a socket address is itself a socket address text,
//! and it denotes the same address: writing an address and reading it back
//! gives the address again, so a pinned endpoint, once normalized, stays
//! as it is.
use vstd::prelude::*;
use crate::addr::{
    double_colon_at, hex_group_ok, ipv4_model, ipv6_model, ipv6_text, is_unspecified, is_v4_mapped,
    join_hex, longest_zero_run, mapped_octets, model_text, model_wf, numeral_ok, octet_ok,
    parse_model, port_of, quad_words, v4_text, words, zero_run, AddrModel,
};
use crate::profile::endpoint_spec;
use crate::tun::socks_target_spec;
use crate::text::{
    all_digits, all_hex, dec_text, dec_val, digit_char, hex_text, hex_val, is_digit, is_hex,
    is_ws, lacks, lemma_dec_text, lemma_hex_text, lemma_split_concat, lemma_split_single, split,
    trim, trim_end, trim_start,
};

verus! {

// ---------------------------------------------------------------------------
// Characters
// ---------------------------------------------------------------------------

proof fn lemma_digits_lack(t: Seq<char>, c: char)
    requires
        all_digits(t),
        !is_digit(c),
    ensures
        lacks(t, c),
{
    assert forall|i: int| 0 <= i < t.len() implies #[trigger] t[i] != c by {
        assert(is_digit(t[i]));
    }
}

proof fn lemma_hex_lack(t: Seq<char>, c: char)
    requires
        all_hex(t),
        !is_hex(c),
    ensures
        lacks(t, c),
{
    assert forall|i: int| 0 <= i < t.len() implies #[trigger] t[i] != c by {
        assert(is_hex(t[i]));
    }
}

proof fn lemma_lacks_concat(a: Seq<char>, b: Seq<char>, c: char)
    requires
        lacks(a, c),
        lacks(b, c),
    ensures
        lacks(a + b, c),
{
    assert forall|i: int| 0 <= i < (a + b).len() implies #[trigger] (a + b)[i] != c by {
        if i < a.len() {
            assert((a + b)[i] == a[i]);
        } else {
            assert((a + b)[i] == b[i - a.len()]);
        }
    }
}

/// A decimal numeral lacks every separator of the address grammar.
proof fn lemma_dec_lacks_separators(n: nat)
    ensures
        lacks(dec_text(n), '.'),
        lacks(dec_text(n), ':'),
        lacks(dec_text(n), ']'),
        lacks(dec_text(n), '%'),
        lacks(dec_text(n), '['),
{
    lemma_dec_text(n);
    lemma_digits_lack(dec_text(n), '.');
    lemma_digits_lack(dec_text(n), ':');
    lemma_digits_lack(dec_text(n), ']');
    lemma_digits_lack(dec_text(n), '%');
    lemma_digits_lack(dec_text(n), '[');
}

// ---------------------------------------------------------------------------
// Dotted quads
// ---------------------------------------------------------------------------

proof fn lemma_octet_text(o: u8)
    ensures
        octet_ok(dec_text(o as nat)),
        dec_val(dec_text(o as nat)) == o,
{
    lemma_dec_text(o as nat);
}

/// A dotted quad reads back as its octets and holds no colon, bracket or
/// percent sign; it starts and ends with a digit.
proof fn lemma_v4_text(o: Seq<u8>)
    requires
        o.len() == 4,
    ensures
        ipv4_model(v4_text(o)) == Some(o),
        lacks(v4_text(o), ':'),
        lacks(v4_text(o), ']'),
        lacks(v4_text(o), '%'),
        v4_text(o).len() > 0,
        is_digit(v4_text(o)[0]),
        is_digit(v4_text(o).last()),
        !all_hex(v4_text(o)),
{
    let d0 = dec_text(o[0] as nat);
    let d1 = dec_text(o[1] as nat);
    let d2 = dec_text(o[2] as nat);
    let d3 = dec_text(o[3] as nat);
    lemma_octet_text(o[0]);
    lemma_octet_text(o[1]);
    lemma_octet_text(o[2]);
    lemma_octet_text(o[3]);
    lemma_dec_lacks_separators(o[0] as nat);
    lemma_dec_lacks_separators(o[1] as nat);
    lemma_dec_lacks_separators(o[2] as nat);
    lemma_dec_lacks_separators(o[3] as nat);
    let t = v4_text(o);
    let x1 = d0 + seq!['.'] + d1;
    let x2 = x1 + seq!['.'] + d2;
    assert(t == x2 + seq!['.'] + d3);
    lemma_split_single(d0, '.');
    lemma_split_single(d1, '.');
    lemma_split_single(d2, '.');
    lemma_split_single(d3, '.');
    lemma_split_concat(d0, d1, '.');
    lemma_split_concat(x1, d2, '.');
    lemma_split_concat(x2, d3, '.');
    let p = split(t, '.');
    assert(p =~= seq![d0, d1, d2, d3]);
    assert(forall|i: int| 0 <= i < 4 ==> octet_ok(#[trigger] p[i]));
    assert(Seq::new(4, |i: int| dec_val(p[i]) as u8) =~= o);
    let dot = seq!['.'];
    assert(lacks(dot, ':') && lacks(dot, ']') && lacks(dot, '%'));
    lemma_lacks_concat(d0, dot, ':');
    lemma_lacks_concat(d0 + dot, d1, ':');
    lemma_lacks_concat(x1, dot, ':');
    lemma_lacks_concat(x1 + dot, d2, ':');
    lemma_lacks_concat(x2, dot, ':');
    lemma_lacks_concat(x2 + dot, d3, ':');
    lemma_lacks_concat(d0, dot, ']');
    lemma_lacks_concat(d0 + dot, d1, ']');
    lemma_lacks_concat(x1, dot, ']');
    lemma_lacks_concat(x1 + dot, d2, ']');
    lemma_lacks_concat(x2, dot, ']');
    lemma_lacks_concat(x2 + dot, d3, ']');
    lemma_lacks_concat(d0, dot, '%');
    lemma_lacks_concat(d0 + dot, d1, '%');
    lemma_lacks_concat(x1, dot, '%');
    lemma_lacks_concat(x1 + dot, d2, '%');
    lemma_lacks_concat(x2, dot, '%');
    lemma_lacks_concat(x2 + dot, d3, '%');
    assert(t[0] == d0[0]);
    assert(t.last() == d3.last());
    assert(is_digit(d3[d3.len() - 1]));
    assert(t[d0.len() as int] == '.');
    assert(!is_hex(t[d0.len() as int]));
}

// ---------------------------------------------------------------------------
// Colon-separated hex groups
// ---------------------------------------------------------------------------

/// No `::` anywhere in `t`.
pub open spec fn no_double_colon(t: Seq<char>) -> bool {
    forall|k: int| !#[trigger] double_colon_at(t, k)
}

/// Hex groups joined by single colons: they split back into the groups,
/// read back as the words, hold no `::`, and begin and end with a digit.
proof fn lemma_join_hex(w: Seq<u16>)
    requires
        w.len() >= 1,
    ensures
        split(join_hex(w), ':') == Seq::new(w.len(), |i: int| hex_text(w[i] as nat)),
        words(join_hex(w), false) == Some(w),
        words(join_hex(w), true) == Some(w),
        no_double_colon(join_hex(w)),
        join_hex(w).len() > 0,
        is_hex(join_hex(w)[0]),
        is_hex(join_hex(w).last()),
        lacks(join_hex(w), '.'),
        lacks(join_hex(w), ']'),
        lacks(join_hex(w), '%'),
    decreases w.len(),
{
    let t = join_hex(w);
    let h = hex_text(w.last() as nat);
    lemma_hex_text(w.last() as nat);
    lemma_hex_lack(h, ':');
    lemma_hex_lack(h, '.');
    lemma_hex_lack(h, ']');
    lemma_hex_lack(h, '%');
    if w.len() == 1 {
        lemma_split_single(h, ':');
        assert(Seq::new(w.len(), |i: int| hex_text(w[i] as nat)) =~= seq![h]);
    } else {
        let v = w.drop_last();
        let j = join_hex(v);
        lemma_join_hex(v);
        assert(t == j + seq![':'] + h);
        lemma_split_single(h, ':');
        lemma_split_concat(j, h, ':');
        assert(split(t, ':') =~= Seq::new(w.len(), |i: int| hex_text(w[i] as nat)));
        assert forall|k: int| !#[trigger] double_colon_at(t, k) by {
            if double_colon_at(t, k) {
                if k + 1 < j.len() {
                    assert(t[k] == j[k] && t[k + 1] == j[k + 1]);
                    assert(double_colon_at(j, k));
                } else if k + 1 == j.len() {
                    assert(t[k] == j.last());
                } else if k == j.len() {
                    assert(t[k + 1] == h[0]);
                } else {
                    assert(t[k] == h[k - j.len() - 1]);
                }
            }
        }
        assert(t[0] == j[0]);
        let colon = seq![':'];
        assert(lacks(colon, '.') && lacks(colon, ']') && lacks(colon, '%'));
        lemma_lacks_concat(j, colon, '.');
        lemma_lacks_concat(j + colon, h, '.');
        lemma_lacks_concat(j, colon, ']');
        lemma_lacks_concat(j + colon, h, ']');
        lemma_lacks_concat(j, colon, '%');
        lemma_lacks_concat(j + colon, h, '%');
    }
    assert(t.last() == h.last());
    assert(is_hex(h[h.len() - 1]));
    let p = split(t, ':');
    assert forall|i: int| 0 <= i < p.len() implies hex_group_ok(#[trigger] p[i]) by {
        lemma_hex_text(w[i] as nat);
    }
    assert forall|i: int| 0 <= i < p.len() implies (#[trigger] hex_val(p[i]) as u16) == w[i] by {
        lemma_hex_text(w[i] as nat);
    }
    assert(Seq::new(p.len(), |i: int| hex_val(p[i]) as u16) =~= w);
    assert(no_double_colon(t));
}

proof fn lemma_join_hex_empty()
    ensures
        join_hex(Seq::<u16>::empty()) == Seq::<char>::empty(),
        words(Seq::<char>::empty(), false) == Some(Seq::<u16>::empty()),
        words(Seq::<char>::empty(), true) == Some(Seq::<u16>::empty()),
{
}

// ---------------------------------------------------------------------------
// The longest run of zeros
// ---------------------------------------------------------------------------

/// Every eight-word address has a longest (first) run of zero words.
proof fn lemma_longest_exists(w: Seq<u16>) -> (r: (int, int))
    requires
        w.len() == 8,
    ensures
        longest_zero_run(w, r.0, r.1),
{
    lemma_scan(w, 0, 0, 0, 0, 0)
}

proof fn lemma_scan(w: Seq<u16>, i: int, best_s: int, best_l: int, cur_s: int, cur_l: int) -> (r: (
    int,
    int,
))
    requires
        w.len() == 8,
        0 <= i <= 8,
        cur_s + cur_l == i,
        zero_run(w, cur_s, cur_l),
        cur_s == 0 || w[cur_s - 1] != 0,
        zero_run(w, best_s, best_l),
        best_s + best_l <= i,
        forall|s2: int, l2: int| zero_run(w, s2, l2) && s2 + l2 <= i ==> l2 <= best_l,
        forall|s2: int| 0 <= s2 < best_s && s2 + best_l <= i ==> !zero_run(w, s2, best_l),
    ensures
        longest_zero_run(w, r.0, r.1),
    decreases 8 - i,
{
    if i == 8 {
        (best_s, best_l)
    } else if w[i] == 0 {
        let cl = cur_l + 1;
        assert forall|s2: int, l2: int| zero_run(w, s2, l2) && s2 + l2 == i + 1 implies l2
            <= cl by {
            if l2 > cl {
                assert(w[cur_s - 1] == 0);
            }
        }
        if cl > best_l {
            lemma_scan(w, i + 1, cur_s, cl, cur_s, cl)
        } else {
            lemma_scan(w, i + 1, best_s, best_l, cur_s, cl)
        }
    } else {
        assert forall|s2: int, l2: int| zero_run(w, s2, l2) && s2 + l2 == i + 1 implies l2
            == 0 by {
            if l2 > 0 {
                assert(w[i] == 0);
            }
        }
        lemma_scan(w, i + 1, best_s, best_l, i + 1, 0)
    }
}

// ---------------------------------------------------------------------------
// IPv6 text
// ---------------------------------------------------------------------------

/// `H` and `T` around a `::`.
pub open spec fn compressed(hd: Seq<char>, tl: Seq<char>) -> Seq<char> {
    hd + seq![':', ':'] + tl
}

/// `H :: T` with `H`, `T` free of `::`, `H` ending and `T` starting with a
/// hex digit (when present) has its only `::` right after `H`.
proof fn lemma_single_double_colon(hd: Seq<char>, tl: Seq<char>)
    requires
        no_double_colon(hd),
        no_double_colon(tl),
        hd.len() > 0 ==> is_hex(hd.last()),
        tl.len() > 0 ==> is_hex(tl[0]),
    ensures
        double_colon_at(compressed(hd, tl), hd.len() as int),
        forall|k: int| #[trigger] double_colon_at(compressed(hd, tl), k) ==> k == hd.len(),
{
    let t = compressed(hd, tl);
    let n = hd.len() as int;
    assert(t[n] == ':' && t[n + 1] == ':');
    assert forall|k: int| double_colon_at(t, k) implies k == n by {
        if k + 1 < n {
            assert(t[k] == hd[k] && t[k + 1] == hd[k + 1]);
            assert(double_colon_at(hd, k));
        } else if k + 1 == n {
            assert(t[k] == hd.last());
        } else if k == n + 1 {
            assert(t[k + 1] == tl[0]);
        } else if k > n + 1 {
            assert(t[k] == tl[k - n - 2] && t[k + 1] == tl[k - n - 1]);
            assert(double_colon_at(tl, k - n - 2));
        }
    }
}

proof fn lemma_ffff()
    ensures
        hex_text(0xffff) == seq!['f', 'f', 'f', 'f'],
        hex_val(seq!['f', 'f', 'f', 'f']) == 0xffff,
        hex_group_ok(seq!['f', 'f', 'f', 'f']),
{
    reveal_with_fuel(hex_text, 5);
    assert(digit_char(15) == 'f');
    assert(hex_text(0xffff) =~= seq!['f', 'f', 'f', 'f']);
    lemma_hex_text(0xffff);
}

proof fn lemma_ipv6_mapped(w: Seq<u16>)
    requires
        w.len() == 8,
        is_v4_mapped(w),
    ensures
        ipv6_model(ipv6_text(w)) == Some(w),
        lacks(ipv6_text(w), ']'),
        lacks(ipv6_text(w), '%'),
{
    let t = ipv6_text(w);
    let q = mapped_octets(w);
    let v4 = v4_text(q);
    lemma_v4_text(q);
    let f4 = seq!['f', 'f', 'f', 'f'];
    lemma_ffff();
    let tl = f4 + seq![':'] + v4;
    assert(no_double_colon(tl)) by {
        assert forall|k: int| !#[trigger] double_colon_at(tl, k) by {
            if double_colon_at(tl, k) {
                if k < 4 {
                    assert(tl[k] == f4[k]);
                } else if k == 4 {
                    assert(tl[k + 1] == v4[0]);
                } else {
                    assert(tl[k] == v4[k - 5]);
                }
            }
        }
    }
    assert(no_double_colon(Seq::<char>::empty()));
    assert(tl[0] == 'f');
    lemma_single_double_colon(Seq::<char>::empty(), tl);
    assert(t =~= compressed(Seq::<char>::empty(), tl));
    assert(double_colon_at(t, 0));
    let k = choose|k: int| double_colon_at(t, k);
    assert(k == 0);
    assert(!exists|k2: int| k2 != k && double_colon_at(t, k2));
    assert(t.take(0) =~= Seq::<char>::empty());
    assert(t.skip(2) =~= tl);
    lemma_join_hex_empty();
    lemma_split_single(f4, ':');
    lemma_split_single(v4, ':');
    lemma_split_concat(f4, v4, ':');
    let p = split(tl, ':');
    assert(p =~= seq![f4, v4]);
    assert(!hex_group_ok(p[1]));
    assert(hex_group_ok(p[0]));
    assert(ipv4_model(p[1]) == Some(q));
    let ws = Seq::new(1, |i: int| hex_val(p[i]) as u16) + quad_words(q);
    assert(words(tl, true) == Some(ws));
    assert(ws =~= seq![0xffffu16, w[6], w[7]]);
    assert(Seq::<u16>::empty() + Seq::new(5, |i: int| 0u16) + ws =~= w);
    let colons = seq![':', ':'];
    assert(lacks(colons, ']') && lacks(colons, '%'));
    assert(lacks(seq![':'], ']') && lacks(seq![':'], '%'));
    assert(lacks(f4, ']') && lacks(f4, '%'));
    lemma_lacks_concat(f4, seq![':'], ']');
    lemma_lacks_concat(f4 + seq![':'], v4, ']');
    lemma_lacks_concat(colons, tl, ']');
    lemma_lacks_concat(f4, seq![':'], '%');
    lemma_lacks_concat(f4 + seq![':'], v4, '%');
    lemma_lacks_concat(colons, tl, '%');
    assert(t =~= colons + tl);
}

proof fn lemma_ipv6_compressed(w: Seq<u16>, s: int, l: int)
    requires
        w.len() == 8,
        zero_run(w, s, l),
        l > 1,
    ensures
        ipv6_model(compressed(join_hex(w.take(s)), join_hex(w.skip(s + l)))) == Some(w),
        lacks(compressed(join_hex(w.take(s)), join_hex(w.skip(s + l))), ']'),
        lacks(compressed(join_hex(w.take(s)), join_hex(w.skip(s + l))), '%'),
{
    let head = w.take(s);
    let tail = w.skip(s + l);
    let hd = join_hex(head);
    let tl = join_hex(tail);
    let t = compressed(hd, tl);
    lemma_join_hex_empty();
    if head.len() > 0 {
        lemma_join_hex(head);
    } else {
        assert(head =~= Seq::<u16>::empty());
    }
    if tail.len() > 0 {
        lemma_join_hex(tail);
    } else {
        assert(tail =~= Seq::<u16>::empty());
    }
    assert(no_double_colon(Seq::<char>::empty()));
    lemma_single_double_colon(hd, tl);
    let k = choose|k: int| double_colon_at(t, k);
    assert(k == hd.len());
    assert(!exists|k2: int| k2 != k && double_colon_at(t, k2));
    assert(t.take(k) =~= hd);
    assert(t.skip(k + 2) =~= tl);
    assert(words(hd, false) == Some(head));
    assert(words(tl, true) == Some(tail));
    assert(head + Seq::new((8 - head.len() - tail.len()) as nat, |i: int| 0u16) + tail =~= w);
    let colons = seq![':', ':'];
    assert(lacks(colons, ']') && lacks(colons, '%'));
    assert(lacks(Seq::<char>::empty(), ']') && lacks(Seq::<char>::empty(), '%'));
    lemma_lacks_concat(hd, colons, ']');
    lemma_lacks_concat(hd + colons, tl, ']');
    lemma_lacks_concat(hd, colons, '%');
    lemma_lacks_concat(hd + colons, tl, '%');
}

proof fn lemma_ipv6_plain(w: Seq<u16>)
    requires
        w.len() == 8,
    ensures
        ipv6_model(join_hex(w)) == Some(w),
        lacks(join_hex(w), ']'),
        lacks(join_hex(w), '%'),
{
    lemma_join_hex(w);
    assert(!exists|k: int| double_colon_at(join_hex(w), k));
}

/// The canonical IPv6 text reads back as the same eight words.
proof fn lemma_ipv6_text(w: Seq<u16>)
    requires
        w.len() == 8,
    ensures
        ipv6_model(ipv6_text(w)) == Some(w),
        lacks(ipv6_text(w), ']'),
        lacks(ipv6_text(w), '%'),
{
    if is_v4_mapped(w) {
        lemma_ipv6_mapped(w);
    } else {
        let r = lemma_longest_exists(w);
        let p = choose|p: (int, int)| longest_zero_run(w, p.0, p.1);
        assert(longest_zero_run(w, r.0, r.1));
        assert(longest_zero_run(w, p.0, p.1));
        if p.1 > 1 {
            lemma_ipv6_compressed(w, p.0, p.1);
            assert(ipv6_text(w) == compressed(join_hex(w.take(p.0)), join_hex(w.skip(p.0 + p.1))));
        } else {
            lemma_ipv6_plain(w);
        }
    }
}

// ---------------------------------------------------------------------------
// Socket addresses
// ---------------------------------------------------------------------------

/// Writing an address and reading the text back gives the same address.
pub proof fn law_canonical_text_parses_back(m: AddrModel)
    requires
        model_wf(m),
    ensures
        parse_model(model_text(m)) == Some(m),
{
    match m {
        AddrModel::V4 { octets, port } => {
            let v4 = v4_text(octets);
            let d = dec_text(port as nat);
            lemma_v4_text(octets);
            lemma_dec_text(port as nat);
            lemma_dec_lacks_separators(port as nat);
            let s = model_text(m);
            assert(s == v4 + seq![':'] + d);
            assert(s[0] == v4[0]);
            lemma_split_single(v4, ':');
            lemma_split_single(d, ':');
            lemma_split_concat(v4, d, ':');
            assert(split(s, ':') =~= seq![v4, d]);
        },
        AddrModel::V6 { words: w, port, scope_id } => {
            let it = ipv6_text(w);
            let d = dec_text(port as nat);
            lemma_ipv6_text(w);
            lemma_dec_text(port as nat);
            lemma_dec_lacks_separators(port as nat);
            let sc = if scope_id == 0 {
                Seq::<char>::empty()
            } else {
                seq!['%'] + dec_text(scope_id as nat)
            };
            let s = model_text(m);
            assert(s == seq!['['] + it + sc + seq![']', ':'] + d);
            let inner = it + sc;
            let rest = seq![':'] + d;
            assert(s.drop_first() =~= inner + seq![']'] + rest);
            lemma_dec_lacks_separators(scope_id as nat);
            assert(lacks(seq!['%'], ']'));
            lemma_lacks_concat(seq!['%'], dec_text(scope_id as nat), ']');
            assert(lacks(Seq::<char>::empty(), ']'));
            assert(lacks(sc, ']'));
            lemma_lacks_concat(it, sc, ']');
            assert(lacks(seq![':'], ']'));
            lemma_lacks_concat(seq![':'], d, ']');
            lemma_split_single(inner, ']');
            lemma_split_single(rest, ']');
            lemma_split_concat(inner, rest, ']');
            let q = split(s.drop_first(), ']');
            assert(q =~= seq![inner, rest]);
            assert(rest.drop_first() =~= d);
            assert(dec_val(d) as u16 == port);
            if scope_id == 0 {
                assert(inner =~= it);
                lemma_split_single(it, '%');
            } else {
                let ds = dec_text(scope_id as nat);
                lemma_dec_text(scope_id as nat);
                lemma_split_single(it, '%');
                lemma_split_single(ds, '%');
                lemma_split_concat(it, ds, '%');
                assert(inner =~= it + seq!['%'] + ds);
                assert(split(inner, '%') =~= seq![it, ds]);
                assert(numeral_ok(ds, 0xffff_ffff));
            }
        },
    }
}

/// What the grammar accepts always fits a `SocketAddress`.
proof fn lemma_parsed_models_wf(s: Seq<char>)
    ensures
        parse_model(s) matches Some(m) ==> model_wf(m),
{
}

/// Canonical text has no surrounding whitespace.
proof fn lemma_canonical_text_is_trimmed(m: AddrModel)
    requires
        model_wf(m),
    ensures
        trim(model_text(m)) == model_text(m),
        model_text(m).len() > 0,
{
    let s = model_text(m);
    match m {
        AddrModel::V4 { octets, port } => {
            lemma_v4_text(octets);
            lemma_dec_text(port as nat);
            let v4 = v4_text(octets);
            let d = dec_text(port as nat);
            assert(s == v4 + seq![':'] + d);
            assert(s[0] == v4[0]);
            assert(s.last() == d.last());
            assert(is_digit(d[d.len() - 1]));
        },
        AddrModel::V6 { words: w, port, scope_id } => {
            lemma_dec_text(port as nat);
            let d = dec_text(port as nat);
            assert(s[0] == '[');
            assert(s.last() == d.last());
            assert(is_digit(d[d.len() - 1]));
        },
    }
    assert(!is_ws(s[0]));
    assert(trim_start(s) == s);
    assert(!is_ws(s.last()));
    assert(trim_end(s) == s);
}

/// A pinned endpoint, once normalized, stays as it is: feeding the
/// forwarded text back in forwards the same text.
pub proof fn law_endpoint_normalization_is_stable(s: Seq<char>)
    ensures
        endpoint_spec(s) matches Some(t) ==> endpoint_spec(t) == Some(t),
{
    if let Some(t) = endpoint_spec(s) {
        let m = parse_model(trim(s))->0;
        lemma_parsed_models_wf(trim(s));
        lemma_canonical_text_is_trimmed(m);
        law_canonical_text_parses_back(m);
    }
}

// ---------------------------------------------------------------------------
// The forwarder's target
// ---------------------------------------------------------------------------

/// `0.0.0.0` reads as the IPv4 wildcard, and as no IPv6 address at all.
proof fn lemma_v4_wildcard_text()
    ensures
        ipv4_model("0.0.0.0"@) == Some(seq![0u8, 0u8, 0u8, 0u8]),
        ipv6_model("0.0.0.0"@) is None,
{
    reveal_strlit("0.0.0.0");
    let z = seq![0u8, 0u8, 0u8, 0u8];
    lemma_dec_text(0);
    assert(dec_text(0) =~= seq!['0']);
    assert(v4_text(z) =~= "0.0.0.0"@);
    lemma_v4_text(z);
    let t = "0.0.0.0"@;
    assert(!exists|k: int| double_colon_at(t, k));
    assert(lacks(t, ':'));
    lemma_split_single(t, ':');
    assert(!hex_group_ok(t)) by {
        assert(!is_hex(t[1]));
    }
}

/// `::` reads as the IPv6 wildcard.
proof fn lemma_v6_wildcard_text()
    ensures
        ipv6_model("::"@) == Some(Seq::new(8, |i: int| 0u16)),
{
    reveal_strlit("::");
    let z = Seq::new(8, |i: int| 0u16);
    assert(zero_run(z, 0, 8));
    lemma_ipv6_compressed(z, 0, 8);
    assert(z.take(0) =~= Seq::<u16>::empty());
    assert(z.skip(8) =~= Seq::<u16>::empty());
    lemma_join_hex_empty();
    assert(compressed(join_hex(z.take(0)), join_hex(z.skip(8))) =~= "::"@);
}

/// The forwarder never dials the wildcard address: whatever the `--bind`
/// address, the host it is given is neither `0.0.0.0` nor `::`, the texts
/// of the two wildcard addresses (a wildcard bind is dialed over loopback).
pub proof fn law_forwarder_never_dials_the_wildcard(bind: Seq<char>)
    ensures
        socks_target_spec(bind).0 != "0.0.0.0"@,
        socks_target_spec(bind).0 != "::"@,
{
    reveal_strlit("0.0.0.0");
    reveal_strlit("::");
    reveal_strlit("127.0.0.1");
    lemma_v4_wildcard_text();
    lemma_v6_wildcard_text();
    lemma_parsed_models_wf(bind);
    if let Some(m) = parse_model(bind) {
        if !is_unspecified(m) {
            match m {
                AddrModel::V4 { octets, .. } => {
                    lemma_v4_text(octets);
                    lemma_dec_text(octets[0] as nat);
                    if v4_text(octets) == "0.0.0.0"@ {
                        assert(octets =~= seq![0u8, 0u8, 0u8, 0u8]);
                    }
                    assert(v4_text(octets).len() > 2);
                },
                AddrModel::V6 { words: w, .. } => {
                    lemma_ipv6_text(w);
                    if ipv6_text(w) == "::"@ {
                        assert(w =~= Seq::new(8, |i: int| 0u16));
                    }
                },
            }
        }
    }
}

/// A forwarded endpoint starts with a digit or a bracket, never with a dash,
/// so it can never be taken for a flag.
pub proof fn lemma_endpoint_not_dashed(s: Seq<char>)
    ensures
        endpoint_spec(s) matches Some(t) ==> t.len() > 0 && t[0] != '-',
{
    if let Some(t) = endpoint_spec(s) {
        let m = parse_model(trim(s))->0;
        lemma_parsed_models_wf(trim(s));
        match m {
            AddrModel::V4 { octets, port } => {
                lemma_dec_text(octets[0] as nat);
                let d = dec_text(octets[0] as nat);
                assert(is_digit(d[0]));
                assert(t[0] == d[0]);
            },
            AddrModel::V6 { .. } => {
                assert(t[0] == '[');
            },
        }
    }
}

/// The forwarder dials the address the core is bound to: for a bind that
/// parses to an address other than the wildcard, the host reads back as
/// that same address (for IPv4, `host:port` is the bound socket itself)
/// and the port is the bound port. Loopback `127.0.0.1` stands in only for
/// a wildcard bind (keeping its port) or a bind that does not parse
/// (falling back to port 1819).
pub proof fn law_forwarder_dials_the_bound_address(bind: Seq<char>)
    ensures
        ({
            let (host, port) = socks_target_spec(bind);
            match parse_model(bind) {
                Some(m) => if is_unspecified(m) {
                    host == "127.0.0.1"@ && port == port_of(m)
                } else {
                    match m {
                        AddrModel::V4 { octets, port: bound } => {
                            &&& ipv4_model(host) == Some(octets)
                            &&& port == bound
                            &&& parse_model(host + seq![':'] + dec_text(port as nat)) == Some(m)
                        },
                        AddrModel::V6 { words, port: bound, .. } => {
                            &&& ipv6_model(host) == Some(words)
                            &&& port == bound
                        },
                    }
                },
                None => host == "127.0.0.1"@ && port == 1819,
            }
        }),
{
    lemma_parsed_models_wf(bind);
    if let Some(m) = parse_model(bind) {
        if !is_unspecified(m) {
            match m {
                AddrModel::V4 { octets, port } => {
                    lemma_v4_text(octets);
                    law_canonical_text_parses_back(m);
                },
                AddrModel::V6 { words, .. } => {
                    lemma_ipv6_text(words);
                },
            }
        }
    }
}

} // verus!
