//! The routing file behind the "Direct Iranian sites" switch: the user's own
//! direct entries, then the baked-in Iranian domains and address prefixes,
//! one entry per line under a `[direct]` section.
use vstd::prelude::*;
use crate::text::{
    chars_of, extend_str, lacks, lemma_split_concat, lemma_split_single, lemma_trim_idempotent,
    split, string_of, trim, trim_start, trimmed,
};

verus! {

/// Iranian IPv4 prefixes, one CIDR per line. A placeholder: it holds only
/// three well-known prefixes. The full daily-aggregated lists (some 2,850
/// IPv4 and IPv6 prefixes) are not part of this source tree; a caller that
/// has them passes them to `routes_file_content`.
pub const IR_V4: &'static str = "5.160.0.0/16\n78.38.0.0/15\n94.182.0.0/16\n";

/// Iranian IPv6 prefixes, one CIDR per line. A placeholder, empty here (see
/// `IR_V4`).
pub const IR_V6: &'static str = "";

/// High-traffic Iranian domains plus `private`, so that front-ends that
/// resolve outside the prefixes still go direct.
pub const IR_DOMAINS_PRESET: &'static str = "private,digikala.com,aparat.com,filimo.com,telewebion.com,varzesh3.com,snapp.ir,cafebazaar.ir,divar.ir,namava.ir,shad.ir";

/// File name (in the temporary directory) of the generated routing file.
pub const ROUTES_FILE_NAME: &'static str = "aethery-iran-routes.txt";

/// `s` with every comma turned into a line break.
pub open spec fn commas_to_newlines(s: Seq<char>) -> Seq<char> {
    Seq::new(s.len(), |i: int| if s[i] == ',' { '\n' } else { s[i] })
}

/// The line break that ends `s` when it does not end with one already.
pub open spec fn closing_newline(s: Seq<char>) -> Seq<char> {
    if s.len() > 0 && s.last() == '\n' {
        Seq::empty()
    } else {
        seq!['\n']
    }
}

/// The routing file for the user's direct list `user` and the prefix
/// lists `v4` and `v6`.
pub open spec fn routes_content(user: Seq<char>, v4: Seq<char>, v6: Seq<char>) -> Seq<char> {
    let u = trim(user);
    "[direct]\n"@ + (if u.len() > 0 {
        commas_to_newlines(u) + seq!['\n']
    } else {
        Seq::empty()
    }) + commas_to_newlines(IR_DOMAINS_PRESET@) + seq!['\n'] + v4 + closing_newline(v4) + v6
        + closing_newline(v6)
}

fn push_commas_to_newlines(out: &mut Vec<char>, s: &Vec<char>)
    ensures
        final(out)@ == old(out)@ + commas_to_newlines(s@),
{
    let mut i: usize = 0;
    while i < s.len()
        invariant
            i <= s.len(),
            out@ == old(out)@ + commas_to_newlines(s@.take(i as int)),
        decreases s.len() - i,
    {
        if s[i] == ',' {
            out.push('\n');
        } else {
            out.push(s[i]);
        }
        assert(commas_to_newlines(s@.take(i + 1)) =~= commas_to_newlines(s@.take(i as int)).push(
            if s@[i as int] == ',' {
                '\n'
            } else {
                s@[i as int]
            },
        ));
        i = i + 1;
    }
    assert(s@.take(s.len() as int) =~= s@);
}

fn push_with_closing_newline(out: &mut Vec<char>, s: &str)
    ensures
        final(out)@ == old(out)@ + s@ + closing_newline(s@),
{
    let v = chars_of(s);
    crate::text::extend_chars(out, &v);
    if v.len() == 0 || v[v.len() - 1] != '\n' {
        out.push('\n');
    }
    assert(final(out)@ =~= old(out)@ + s@ + closing_newline(s@));
}

/// The routing file's text for the user's direct list and the prefix lists
/// `v4` and `v6`: the user's own entries, then the domain preset, then
/// every prefix.
pub fn routes_file_content(user_direct: &str, v4: &str, v6: &str) -> (r: String)
    ensures
        r@ == routes_content(user_direct@, v4@, v6@),
{
    let mut out: Vec<char> = Vec::new();
    extend_str(&mut out, "[direct]\n");
    let u = trimmed(user_direct);
    if u.len() > 0 {
        push_commas_to_newlines(&mut out, &u);
        out.push('\n');
    }
    let preset = chars_of(IR_DOMAINS_PRESET);
    push_commas_to_newlines(&mut out, &preset);
    out.push('\n');
    push_with_closing_newline(&mut out, v4);
    push_with_closing_newline(&mut out, v6);
    assert(out@ =~= routes_content(user_direct@, v4@, v6@));
    string_of(&out)
}

/// The routing file's text with the built-in prefix lists `IR_V4` and
/// `IR_V6` (placeholders; see `IR_V4`).
pub fn build_routes_content(user_direct: &str) -> (r: String)
    ensures
        r@ == routes_content(user_direct@, IR_V4@, IR_V6@),
{
    routes_file_content(user_direct, IR_V4, IR_V6)
}

/// No character of `s` is a comma.
pub open spec fn comma_free(s: Seq<char>) -> bool {
    forall|i: int| 0 <= i < s.len() ==> #[trigger] s[i] != ','
}

proof fn lemma_comma_free_concat(a: Seq<char>, b: Seq<char>)
    requires
        comma_free(a),
        comma_free(b),
    ensures
        comma_free(a + b),
{
    assert forall|i: int| 0 <= i < (a + b).len() implies #[trigger] (a + b)[i] != ',' by {
        if i < a.len() {
            assert((a + b)[i] == a[i]);
        } else {
            assert((a + b)[i] == b[i - a.len()]);
        }
    }
}

/// The routing file is one entry per line: whatever the user typed and
/// whatever the preset holds, no comma survives into it (given prefix
/// lists without commas), and it opens with the `[direct]` section.
pub proof fn law_routes_file_is_one_entry_per_line(user: Seq<char>, v4: Seq<char>, v6: Seq<char>)
    requires
        comma_free(v4),
        comma_free(v6),
    ensures
        comma_free(routes_content(user, v4, v6)),
        "[direct]\n"@.is_prefix_of(routes_content(user, v4, v6)),
{
    reveal_strlit("[direct]\n");
    let head = "[direct]\n"@;
    let u = trim(user);
    let user_part = if u.len() > 0 {
        commas_to_newlines(u) + seq!['\n']
    } else {
        Seq::<char>::empty()
    };
    assert(comma_free(head));
    assert(comma_free(commas_to_newlines(u)));
    assert(comma_free(seq!['\n']));
    lemma_comma_free_concat(commas_to_newlines(u), seq!['\n']);
    assert(comma_free(Seq::<char>::empty()));
    assert(comma_free(user_part));
    let preset = commas_to_newlines(IR_DOMAINS_PRESET@);
    assert(comma_free(preset));
    lemma_comma_free_concat(head, user_part);
    lemma_comma_free_concat(head + user_part, preset);
    lemma_comma_free_concat(head + user_part + preset, seq!['\n']);
    lemma_comma_free_concat(head + user_part + preset + seq!['\n'], v4);
    assert(comma_free(closing_newline(v4)));
    assert(comma_free(closing_newline(v6)));
    lemma_comma_free_concat(head + user_part + preset + seq!['\n'] + v4, closing_newline(v4));
    lemma_comma_free_concat(head + user_part + preset + seq!['\n'] + v4 + closing_newline(v4), v6);
    lemma_comma_free_concat(
        head + user_part + preset + seq!['\n'] + v4 + closing_newline(v4) + v6,
        closing_newline(v6),
    );
    let r = routes_content(user, v4, v6);
    assert(r =~= head + user_part + preset + seq!['\n'] + v4 + closing_newline(v4) + v6
        + closing_newline(v6));
    assert(r.subrange(0, head.len() as int) =~= head);
}

/// The file built for the baked-in prefix lists holds no comma, whatever
/// the user's direct list is.
pub proof fn law_built_routes_file_has_no_comma(user: Seq<char>)
    ensures
        comma_free(routes_content(user, IR_V4@, IR_V6@)),
        "[direct]\n"@.is_prefix_of(routes_content(user, IR_V4@, IR_V6@)),
{
    reveal_strlit("5.160.0.0/16\n78.38.0.0/15\n94.182.0.0/16\n");
    reveal_strlit("");
    law_routes_file_is_one_entry_per_line(user, IR_V4@, IR_V6@);
}

/// `v` without its final line break, when it ends with one.
pub open spec fn without_final_newline(v: Seq<char>) -> Seq<char> {
    if v.len() > 0 && v.last() == '\n' {
        v.drop_last()
    } else {
        v
    }
}

proof fn lemma_closing_newline(v: Seq<char>)
    ensures
        v + closing_newline(v) == without_final_newline(v) + seq!['\n'],
{
    if v.len() > 0 && v.last() == '\n' {
        assert(v =~= v.drop_last() + seq!['\n']);
    }
    assert(v + closing_newline(v) =~= without_final_newline(v) + seq!['\n']);
}

/// Turning commas into line breaks turns the comma-separated pieces into
/// lines, when there were no line breaks before.
proof fn lemma_split_commas_to_newlines(x: Seq<char>)
    requires
        lacks(x, '\n'),
    ensures
        split(commas_to_newlines(x), '\n') == split(x, ','),
    decreases x.len(),
{
    let c = commas_to_newlines(x);
    if x.len() == 0 {
        assert(c =~= Seq::<char>::empty());
    } else {
        let y = x.drop_last();
        assert(lacks(y, '\n')) by {
            assert forall|i: int| 0 <= i < y.len() implies #[trigger] y[i] != '\n' by {
                assert(y[i] == x[i]);
            }
        }
        lemma_split_commas_to_newlines(y);
        assert(c.drop_last() =~= commas_to_newlines(y));
        assert(x.last() != '\n');
        if x.last() == ',' {
            assert(c.last() == '\n');
        } else {
            assert(c.last() == x.last());
        }
    }
}

/// Text joined at a line break.
spec fn nl(a: Seq<char>, b: Seq<char>) -> Seq<char> {
    a + seq!['\n'] + b
}

/// The lines of the routing file: the `[direct]` header, then the user's
/// entries one per line and in their order, then each entry of the domain
/// preset, then the lines of each prefix list, and nothing after the final
/// line break (given a direct list without line breaks of its own).
pub proof fn law_routes_file_lines(user: Seq<char>, v4: Seq<char>, v6: Seq<char>)
    requires
        lacks(trim(user), '\n'),
    ensures
        split(routes_content(user, v4, v6), '\n') == seq!["[direct]"@] + (if trim(user).len() > 0 {
            split(trim(user), ',')
        } else {
            Seq::empty()
        }) + split(IR_DOMAINS_PRESET@, ',') + split(without_final_newline(v4), '\n') + split(
            without_final_newline(v6),
            '\n',
        ) + seq![Seq::<char>::empty()],
{
    reveal_strlit("[direct]\n");
    reveal_strlit("[direct]");
    reveal_strlit("private,digikala.com,aparat.com,filimo.com,telewebion.com,varzesh3.com,snapp.ir,cafebazaar.ir,divar.ir,namava.ir,shad.ir");
    let u = trim(user);
    let h = "[direct]"@;
    let p = IR_DOMAINS_PRESET@;
    let b4 = without_final_newline(v4);
    let b6 = without_final_newline(v6);
    let e = Seq::<char>::empty();
    lemma_closing_newline(v4);
    lemma_closing_newline(v6);
    assert(lacks(h, '\n'));
    assert(lacks(p, '\n'));
    lemma_split_single(h, '\n');
    lemma_split_commas_to_newlines(p);
    lemma_split_concat(b6, e, '\n');
    lemma_split_concat(b4, nl(b6, e), '\n');
    lemma_split_concat(commas_to_newlines(p), nl(b4, nl(b6, e)), '\n');
    let tail = nl(commas_to_newlines(p), nl(b4, nl(b6, e)));
    assert(split(e, '\n') =~= seq![e]);
    let r = routes_content(user, v4, v6);
    if u.len() > 0 {
        lemma_split_commas_to_newlines(u);
        lemma_split_concat(commas_to_newlines(u), tail, '\n');
        lemma_split_concat(h, nl(commas_to_newlines(u), tail), '\n');
        assert(r =~= nl(h, nl(commas_to_newlines(u), tail)));
    } else {
        lemma_split_concat(h, tail, '\n');
        assert(r =~= nl(h, tail));
    }
}

/// Only the trimmed direct list counts, and the user's entries are put in
/// front of the file built without any: the preset and the prefixes stay
/// as they are.
pub proof fn law_routes_file_prepends_user_entries(user: Seq<char>, v4: Seq<char>, v6: Seq<char>)
    ensures
        routes_content(trim(user), v4, v6) == routes_content(user, v4, v6),
        trim(user).len() == 0 ==> routes_content(user, v4, v6) == routes_content(
            Seq::empty(),
            v4,
            v6,
        ),
        trim(user).len() > 0 ==> routes_content(user, v4, v6) == "[direct]\n"@ + commas_to_newlines(
            trim(user),
        ) + seq!['\n'] + routes_content(Seq::empty(), v4, v6).skip(9),
{
    reveal_strlit("[direct]\n");
    lemma_trim_idempotent(user);
    let e = Seq::<char>::empty();
    assert(trim_start(e) == e);
    assert(trim(e) == e);
    let base = routes_content(e, v4, v6);
    let rest = commas_to_newlines(IR_DOMAINS_PRESET@) + seq!['\n'] + v4 + closing_newline(v4) + v6
        + closing_newline(v6);
    assert(base =~= "[direct]\n"@ + rest);
    assert(base.skip(9) =~= rest);
    if trim(user).len() > 0 {
        assert(routes_content(user, v4, v6) =~= "[direct]\n"@ + commas_to_newlines(trim(user))
            + seq!['\n'] + rest);
    } else {
        assert(routes_content(user, v4, v6) =~= base);
    }
}

/// Right after the `[direct]` header the file holds the user's trimmed
/// direct list character for character, except that each comma becomes a
/// line break: every other character, a line break included, is kept, so
/// entries given one per line stay one per line. A line break ends the
/// list.
pub proof fn law_user_entries_keep_their_characters(user: Seq<char>, v4: Seq<char>, v6: Seq<char>)
    ensures
        forall|i: int|
            0 <= i < trim(user).len() ==> {
                &&& trim(user)[i] == ',' ==> #[trigger] routes_content(user, v4, v6)[9 + i] == '\n'
                &&& trim(user)[i] != ',' ==> routes_content(user, v4, v6)[9 + i] == trim(user)[i]
            },
        trim(user).len() > 0 ==> routes_content(user, v4, v6)[9 + trim(user).len() as int] == '\n',
{
    reveal_strlit("[direct]\n");
    let t = trim(user);
    let r = routes_content(user, v4, v6);
    if t.len() > 0 {
        let rest = commas_to_newlines(IR_DOMAINS_PRESET@) + seq!['\n'] + v4 + closing_newline(v4)
            + v6 + closing_newline(v6);
        assert(r =~= "[direct]\n"@ + commas_to_newlines(t) + seq!['\n'] + rest);
        assert forall|i: int| 0 <= i < t.len() implies {
            &&& t[i] == ',' ==> #[trigger] r[9 + i] == '\n'
            &&& t[i] != ',' ==> r[9 + i] == t[i]
        } by {
            assert(r[9 + i] == commas_to_newlines(t)[i]);
        }
        assert(r[9 + t.len() as int] == '\n');
    }
}

} // verus!
