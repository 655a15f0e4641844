//! Merging build permissions into a `pnpm-workspace.yaml` a second time, with
//! the same keys or with none, leaves the text as the first merge wrote it.
use vstd::prelude::*;

use crate::commands::plugin_command::{
    add_blocks, add_keys, add_lines, block_end, block_text, blocks_from, continues_block,
    entry_line, eol_of, law_quoted_key_reads_back, line_at, line_end_from, merge_result,
    merged_content, merged_map, package_name_valid, parse_entry_spec, represents, sorted_keys,
    between, crlf_pred,
};
use crate::text::{
    ends_with, find, find_from, join, lemma_find_from_props, lemma_seq_lt_asym,
    lemma_seq_lt_irrefl, lines, matches_at, seq_lt, trail_len, trim,
};

verus! {

// ---------------------------------------------------------------------------
// The merged entries
// ---------------------------------------------------------------------------

/// An entry an `allowBuilds` block can hold: a package name, allowed or not.
pub open spec fn valid_entry(k: Seq<char>, v: Seq<char>) -> bool {
    package_name_valid(k) && (v == "true"@ || v == "false"@)
}

/// Every entry of `m` is one an `allowBuilds` block can hold.
pub open spec fn valid_map(m: Map<Seq<char>, Seq<char>>) -> bool {
    forall|k: Seq<char>| #[trigger] m.contains_key(k) ==> valid_entry(k, m[k])
}

proof fn lemma_parse_valid(line: Seq<char>)
    ensures
        parse_entry_spec(line) matches Some((k, v)) ==> valid_entry(k, v),
{
    reveal_strlit("true");
    reveal_strlit("false");
}

proof fn lemma_add_lines_valid(ls: Seq<Seq<char>>, i: int, m: Map<Seq<char>, Seq<char>>)
    requires
        valid_map(m),
    ensures
        valid_map(add_lines(ls, i, m)),
    decreases ls.len() - i,
{
    if 0 <= i < ls.len() {
        lemma_parse_valid(ls[i]);
        let m2 = match parse_entry_spec(ls[i]) {
            Some((k, v)) => m.insert(k, v),
            None => m,
        };
        lemma_add_lines_valid(ls, i + 1, m2);
    }
}

proof fn lemma_add_blocks_valid(
    t: Seq<char>,
    b: Seq<(int, int, int)>,
    j: int,
    m: Map<Seq<char>, Seq<char>>,
)
    requires
        valid_map(m),
    ensures
        valid_map(add_blocks(t, b, j, m)),
    decreases b.len() - j,
{
    if 0 <= j < b.len() {
        let ls = lines(t.subrange(b[j].1, b[j].2));
        lemma_add_lines_valid(ls, 0, m);
        lemma_add_blocks_valid(t, b, j + 1, add_lines(ls, 0, m));
    }
}

/// `k` is a valid key among `keys[i..]`.
pub open spec fn key_among(keys: Seq<Seq<char>>, i: int, k: Seq<char>) -> bool {
    exists|j: int| i <= j < keys.len() && package_name_valid(keys[j]) && #[trigger] keys[j] == k
}

proof fn lemma_add_keys(keys: Seq<Seq<char>>, i: int, m: Map<Seq<char>, Seq<char>>)
    requires
        0 <= i <= keys.len(),
    ensures
        forall|k: Seq<char>|
            #[trigger] add_keys(keys, i, m).contains_key(k) <==> (m.contains_key(k) || key_among(
                keys,
                i,
                k,
            )),
        forall|k: Seq<char>|
            #[trigger] add_keys(keys, i, m).contains_key(k) ==> add_keys(keys, i, m)[k] == if key_among(
                keys,
                i,
                k,
            ) {
                "true"@
            } else {
                m[k]
            },
        valid_map(m) ==> valid_map(add_keys(keys, i, m)),
    decreases keys.len() - i,
{
    reveal_strlit("true");
    if i < keys.len() {
        let m2 = if package_name_valid(keys[i]) {
            m.insert(keys[i], "true"@)
        } else {
            m
        };
        lemma_add_keys(keys, i + 1, m2);
        assert forall|k: Seq<char>| key_among(keys, i, k) <==> (key_among(keys, i + 1, k) || (
        package_name_valid(keys[i]) && keys[i] == k)) by {
            if key_among(keys, i, k) {
                let j = choose|j: int|
                    i <= j < keys.len() && package_name_valid(keys[j]) && #[trigger] keys[j] == k;
                if j > i {
                    assert(key_among(keys, i + 1, k));
                }
            }
            if key_among(keys, i + 1, k) {
                let j = choose|j: int|
                    i + 1 <= j < keys.len() && package_name_valid(keys[j]) && #[trigger] keys[j]
                        == k;
                assert(key_among(keys, i, k));
            }
            if package_name_valid(keys[i]) && keys[i] == k {
                assert(key_among(keys, i, k));
            }
        }
        let r = add_keys(keys, i, m);
        assert(r == add_keys(keys, i + 1, m2));
        assert forall|k: Seq<char>| #[trigger] r.contains_key(k) <==> (m.contains_key(k) || key_among(
            keys,
            i,
            k,
        )) by {
            assert(r.contains_key(k) == add_keys(keys, i + 1, m2).contains_key(k));
        }
        assert forall|k: Seq<char>| #[trigger] r.contains_key(k) implies r[k] == if key_among(
            keys,
            i,
            k,
        ) {
            "true"@
        } else {
            m[k]
        } by {
            assert(add_keys(keys, i + 1, m2).contains_key(k));
        }
    } else {
        assert forall|k: Seq<char>| !key_among(keys, i, k) by {}
    }
}

/// Adding keys that are all allowed already changes nothing.
proof fn lemma_add_keys_again(keys: Seq<Seq<char>>, m: Map<Seq<char>, Seq<char>>)
    requires
        forall|j: int|
            0 <= j < keys.len() && package_name_valid(#[trigger] keys[j]) ==> m.contains_key(keys[j])
                && m[keys[j]] == "true"@,
    ensures
        add_keys(keys, 0, m) == m,
{
    lemma_add_keys(keys, 0, m);
    let r = add_keys(keys, 0, m);
    assert forall|k: Seq<char>| #[trigger] r.contains_key(k) <==> m.contains_key(k) by {
        if key_among(keys, 0, k) {
            let j = choose|j: int|
                0 <= j < keys.len() && package_name_valid(keys[j]) && #[trigger] keys[j] == k;
        }
    }
    assert forall|k: Seq<char>| #[trigger] r.contains_key(k) implies r[k] == m[k] by {
        if key_among(keys, 0, k) {
            let j = choose|j: int|
                0 <= j < keys.len() && package_name_valid(keys[j]) && #[trigger] keys[j] == k;
        }
    }
    assert(r =~= m);
}

/// The entries of lines that read back as the entries of `s`, added to `m`.
proof fn lemma_add_lines_rep(
    ls: Seq<Seq<char>>,
    s: Seq<(Seq<char>, Seq<char>)>,
    i: int,
    m: Map<Seq<char>, Seq<char>>,
)
    requires
        ls.len() == s.len(),
        0 <= i <= s.len(),
        forall|j: int| 0 <= j < s.len() ==> parse_entry_spec(#[trigger] ls[j]) == Some(s[j]),
        sorted_keys(s),
    ensures
        forall|j: int|
            i <= j < s.len() ==> add_lines(ls, i, m).contains_key(#[trigger] s[j].0) && add_lines(
                ls,
                i,
                m,
            )[s[j].0] == s[j].1,
        forall|k: Seq<char>|
            #[trigger] add_lines(ls, i, m).contains_key(k) ==> m.contains_key(k) || exists|j: int|
                i <= j < s.len() && s[j].0 == k,
    decreases s.len() - i,
{
    if i < s.len() {
        assert(parse_entry_spec(ls[i]) == Some(s[i]));
        let m2 = m.insert(s[i].0, s[i].1);
        lemma_add_lines_rep(ls, s, i + 1, m2);
        assert forall|j: int| i + 1 <= j < s.len() implies #[trigger] s[j].0 != s[i].0 by {
            assert(seq_lt(s[i].0, s[j].0));
            if s[j].0 == s[i].0 {
                lemma_seq_lt_irrefl(s[i].0);
            }
        }
        lemma_add_lines_frame(ls, s, i + 1, m2, s[i].0);
        assert forall|k: Seq<char>| #[trigger] add_lines(ls, i, m).contains_key(k) implies m.contains_key(
            k,
        ) || exists|j: int| i <= j < s.len() && s[j].0 == k by {
            if !m2.contains_key(k) {
            } else if k == s[i].0 {
            }
        }
    }
}

/// Lines for keys past `i` leave the entry of another key alone.
proof fn lemma_add_lines_frame(
    ls: Seq<Seq<char>>,
    s: Seq<(Seq<char>, Seq<char>)>,
    i: int,
    m: Map<Seq<char>, Seq<char>>,
    k: Seq<char>,
)
    requires
        ls.len() == s.len(),
        0 <= i <= s.len(),
        forall|j: int| 0 <= j < s.len() ==> parse_entry_spec(#[trigger] ls[j]) == Some(s[j]),
        forall|j: int| i <= j < s.len() ==> #[trigger] s[j].0 != k,
        m.contains_key(k),
    ensures
        add_lines(ls, i, m).contains_key(k),
        add_lines(ls, i, m)[k] == m[k],
    decreases s.len() - i,
{
    if i < s.len() {
        assert(parse_entry_spec(ls[i]) == Some(s[i]));
        assert(s[i].0 != k);
        lemma_add_lines_frame(ls, s, i + 1, m.insert(s[i].0, s[i].1), k);
    }
}

/// One sorted list of entries stands for a map.
proof fn lemma_represents_unique(
    s: Seq<(Seq<char>, Seq<char>)>,
    s2: Seq<(Seq<char>, Seq<char>)>,
    m: Map<Seq<char>, Seq<char>>,
)
    requires
        represents(s, m),
        represents(s2, m),
    ensures
        s == s2,
    decreases s.len(),
{
    if s.len() == 0 {
        if s2.len() > 0 {
            assert(m.contains_key(s2[0].0));
        }
        assert(s =~= s2);
    } else {
        assert(m.contains_key(s[0].0));
        let j = choose|j: int| 0 <= j < s2.len() && s2[j].0 == s[0].0;
        assert(m.contains_key(s2[0].0));
        let i = choose|i: int| 0 <= i < s.len() && s[i].0 == s2[0].0;
        if j > 0 {
            assert(seq_lt(s2[0].0, s2[j].0));
            if i > 0 {
                assert(seq_lt(s[0].0, s[i].0));
                lemma_seq_lt_asym(s[0].0, s[i].0);
            } else {
                lemma_seq_lt_irrefl(s[0].0);
            }
        }
        assert(s2[0] == s[0]);
        let k = s[0].0;
        let mr = m.remove(k);
        let t = s.drop_first();
        let t2 = s2.drop_first();
        assert forall|a: int| 0 <= a < t.len() implies mr.contains_key(#[trigger] t[a].0) && mr[t[a].0]
            == t[a].1 by {
            assert(t[a] == s[a + 1]);
            assert(seq_lt(s[0].0, s[a + 1].0));
            if s[a + 1].0 == k {
                lemma_seq_lt_irrefl(k);
            }
        }
        assert forall|a: int| 0 <= a < t2.len() implies mr.contains_key(#[trigger] t2[a].0)
            && mr[t2[a].0] == t2[a].1 by {
            assert(t2[a] == s2[a + 1]);
            assert(seq_lt(s2[0].0, s2[a + 1].0));
            if s2[a + 1].0 == k {
                lemma_seq_lt_irrefl(k);
            }
        }
        assert forall|x: Seq<char>| #[trigger] mr.contains_key(x) implies exists|a: int|
            0 <= a < t.len() && t[a].0 == x by {
            let a = choose|a: int| 0 <= a < s.len() && s[a].0 == x;
            assert(t[a - 1].0 == x);
        }
        assert forall|x: Seq<char>| #[trigger] mr.contains_key(x) implies exists|a: int|
            0 <= a < t2.len() && t2[a].0 == x by {
            let a = choose|a: int| 0 <= a < s2.len() && s2[a].0 == x;
            assert(t2[a - 1].0 == x);
        }
        assert(sorted_keys(t)) by {
            assert forall|a: int, b: int| 0 <= a < b < t.len() implies seq_lt(
                #[trigger] t[a].0,
                #[trigger] t[b].0,
            ) by {
                assert(seq_lt(s[a + 1].0, s[b + 1].0));
            }
        }
        assert(sorted_keys(t2)) by {
            assert forall|a: int, b: int| 0 <= a < b < t2.len() implies seq_lt(
                #[trigger] t2[a].0,
                #[trigger] t2[b].0,
            ) by {
                assert(seq_lt(s2[a + 1].0, s2[b + 1].0));
            }
        }
        lemma_represents_unique(t, t2, mr);
        assert(s =~= seq![s[0]] + t);
        assert(s2 =~= seq![s2[0]] + t2);
    }
}

// ---------------------------------------------------------------------------
// The lines of a written block
// ---------------------------------------------------------------------------

/// The lines `ls`, each followed by `eol`.
pub open spec fn terminated(ls: Seq<Seq<char>>, eol: Seq<char>) -> Seq<char>
    decreases ls.len(),
{
    if ls.len() == 0 {
        seq![]
    } else {
        ls[0] + eol + terminated(ls.drop_first(), eol)
    }
}

/// A line ending the launcher writes.
pub open spec fn is_eol(eol: Seq<char>) -> bool {
    eol == "\n"@ || eol == "\r\n"@
}

/// A line holding no `\r` or `\n`.
pub open spec fn plain_line(l: Seq<char>) -> bool {
    forall|k: int| 0 <= k < l.len() ==> #[trigger] l[k] != '\n' && l[k] != '\r'
}

proof fn lemma_terminated_push(ls: Seq<Seq<char>>, x: Seq<char>, eol: Seq<char>)
    ensures
        terminated(ls.push(x), eol) == terminated(ls, eol) + x + eol,
    decreases ls.len(),
{
    if ls.len() == 0 {
        assert(ls.push(x).drop_first() =~= Seq::<Seq<char>>::empty());
        assert(terminated(Seq::<Seq<char>>::empty(), eol) == Seq::<char>::empty());
        assert(terminated(ls, eol) == Seq::<char>::empty());
        assert(ls.push(x)[0] == x);
        assert(terminated(ls.push(x), eol) =~= terminated(ls, eol) + x + eol);
    } else {
        lemma_terminated_push(ls.drop_first(), x, eol);
        assert(ls.push(x).drop_first() =~= ls.drop_first().push(x));
        assert(terminated(ls.push(x), eol) =~= terminated(ls, eol) + x + eol);
    }
}

proof fn lemma_join_terminated(ls: Seq<Seq<char>>, eol: Seq<char>)
    requires
        ls.len() > 0,
    ensures
        join(ls, eol) + eol == terminated(ls, eol),
    decreases ls.len(),
{
    if ls.len() == 1 {
        assert(ls.drop_first() =~= Seq::<Seq<char>>::empty());
        assert(terminated(Seq::<Seq<char>>::empty(), eol) == Seq::<char>::empty());
        assert(join(ls, eol) == ls[0]);
        assert(join(ls, eol) + eol =~= terminated(ls, eol));
    } else {
        lemma_join_terminated(ls.drop_last(), eol);
        lemma_terminated_push(ls.drop_last(), ls.last(), eol);
        assert(ls.drop_last().push(ls.last()) =~= ls);
        assert(join(ls, eol) + eol =~= terminated(ls, eol));
    }
}

proof fn lemma_lines_terminated(ls: Seq<Seq<char>>, eol: Seq<char>)
    requires
        is_eol(eol),
        forall|i: int| 0 <= i < ls.len() ==> plain_line(#[trigger] ls[i]),
    ensures
        lines(terminated(ls, eol)) == ls,
    decreases ls.len(),
{
    reveal_strlit("\n");
    reveal_strlit("\r\n");
    if ls.len() > 0 {
        let t = terminated(ls, eol);
        let l0 = ls[0];
        let n = l0.len() as int;
        let i = n + eol.len() - 1;
        assert(plain_line(l0));
        assert(t.len() > i);
        assert(t[i] == '\n');
        lemma_find_from_props(t, seq!['\n'], 0);
        assert(matches_at(t, i, seq!['\n'])) by {
            assert(t.subrange(i, i + 1) =~= seq!['\n']);
        }
        assert forall|j: int| 0 <= j < i implies !#[trigger] matches_at(t, j, seq!['\n']) by {
            assert(t.subrange(j, j + 1)[0] == t[j]);
            if j < n {
                assert(t[j] == l0[j]);
            } else {
                assert(t[j] == '\r');
            }
        }
        assert(find(t, seq!['\n']) == Some(i));
        lemma_lines_terminated(ls.drop_first(), eol);
        assert(t.skip(i + 1) =~= terminated(ls.drop_first(), eol));
        if eol == "\n"@ {
            if n > 0 {
                assert(t[n - 1] == l0[n - 1]);
            }
        }
        assert(t.take(n) =~= l0);
        assert(lines(t) =~= ls);
    }
}

/// An entry line is plain, indented, and reads back as its entry.
proof fn lemma_entry_line(e: (Seq<char>, Seq<char>))
    requires
        valid_entry(e.0, e.1),
    ensures
        plain_line(entry_line(e)),
        entry_line(e).len() > 0,
        entry_line(e)[0] == ' ',
        parse_entry_spec(entry_line(e)) == Some(e),
{
    reveal_strlit("  ");
    reveal_strlit(": ");
    reveal_strlit("true");
    reveal_strlit("false");
    crate::commands::plugin_command::lemma_quoted_package(e.0);
    law_quoted_key_reads_back(e.0, e.1);
    let q = crate::commands::plugin_command::quote_key_spec(e.0);
    let l = entry_line(e);
    assert(l == "  "@ + q + ": "@ + e.1);
    assert forall|k: int| 0 <= k < l.len() implies #[trigger] l[k] != '\n' && l[k] != '\r' by {
        if 2 <= k < 2 + q.len() {
            assert(l[k] == q[k - 2]);
        } else if k >= q.len() + 4 {
            assert(l[k] == e.1[k - q.len() - 4]);
        }
    }
}

// ---------------------------------------------------------------------------
// Text facts
// ---------------------------------------------------------------------------

/// `allowBuilds:` occurs nowhere in `s`.
pub open spec fn no_match(s: Seq<char>) -> bool {
    forall|j: int| !#[trigger] matches_at(s, j, "allowBuilds:"@)
}

pub open spec fn is_crlf(c: char) -> bool {
    c == '\n' || c == '\r'
}

proof fn lemma_pattern_plain()
    ensures
        "allowBuilds:"@.len() == 12,
        forall|k: int| 0 <= k < 12 ==> !is_crlf(#[trigger] "allowBuilds:"@[k]),
{
    reveal_strlit("allowBuilds:");
}

proof fn lemma_no_match_concat(x: Seq<char>, y: Seq<char>)
    requires
        no_match(x),
        no_match(y),
        x.len() == 0 || y.len() == 0 || is_crlf(x.last()) || is_crlf(y[0]),
    ensures
        no_match(x + y),
{
    lemma_pattern_plain();
    let p = "allowBuilds:"@;
    let z = x + y;
    assert forall|j: int| !#[trigger] matches_at(z, j, p) by {
        if matches_at(z, j, p) {
            if j + 12 <= x.len() {
                assert(x.subrange(j, j + 12) =~= z.subrange(j, j + 12));
                assert(matches_at(x, j, p));
            } else if j >= x.len() {
                assert(y.subrange(j - x.len(), j - x.len() + 12) =~= z.subrange(j, j + 12));
                assert(matches_at(y, j - x.len(), p));
            } else {
                let k1 = x.len() - 1 - j;
                assert(z.subrange(j, j + 12)[k1] == x.last());
                assert(z.subrange(j, j + 12)[k1 + 1] == y[0]);
                assert(!is_crlf(p[k1]));
                assert(!is_crlf(p[k1 + 1]));
            }
        }
    }
}

/// Searching `x + u` from inside `u` is searching `u`.
proof fn lemma_find_shift(x: Seq<char>, u: Seq<char>, p: Seq<char>, i: int)
    requires
        0 <= i,
    ensures
        find_from(x + u, p, x.len() + i) == match find_from(u, p, i) {
            Some(k) => Some(x.len() + k),
            None => None,
        },
    decreases u.len() + 1 - i,
{
    let z = x + u;
    if i + p.len() <= u.len() {
        assert(z.subrange(x.len() + i, x.len() + i + p.len()) =~= u.subrange(i, i + p.len()));
        if !matches_at(u, i, p) {
            lemma_find_shift(x, u, p, i + 1);
        }
    }
}

/// A search that succeeds within `u` is not changed by text after `u`.
proof fn lemma_find_prefix(u: Seq<char>, y: Seq<char>, p: Seq<char>, i: int)
    requires
        0 <= i,
        find_from(u, p, i) is Some,
    ensures
        find_from(u + y, p, i) == find_from(u, p, i),
    decreases u.len() + 1 - i,
{
    let z = u + y;
    assert(z.subrange(i, i + p.len()) =~= u.subrange(i, i + p.len()));
    if !matches_at(u, i, p) {
        lemma_find_prefix(u, y, p, i + 1);
    }
}

proof fn lemma_line_at_shift(x: Seq<char>, u: Seq<char>, i: int)
    requires
        0 <= i <= u.len(),
    ensures
        line_end_from(x + u, x.len() + i) == x.len() + line_end_from(u, i),
        line_at(x + u, x.len() + i) == line_at(u, i),
{
    lemma_find_shift(x, u, seq!['\n'], i);
    crate::commands::plugin_command::lemma_line_end_bound(u, i);
    let le = line_end_from(u, i);
    assert((x + u).subrange(x.len() + i, x.len() + le) =~= u.subrange(i, le));
}

proof fn lemma_line_at_prefix(u: Seq<char>, y: Seq<char>)
    requires
        find_from(u, seq!['\n'], 0) is Some,
    ensures
        line_at(u + y, 0) == line_at(u, 0),
{
    lemma_find_prefix(u, y, seq!['\n'], 0);
    crate::commands::plugin_command::lemma_line_end_bound(u, 0);
    let le = line_end_from(u, 0);
    assert((u + y).subrange(0, le) =~= u.subrange(0, le));
}

proof fn lemma_trail_eol(l: Seq<char>, eol: Seq<char>)
    requires
        is_eol(eol),
    ensures
        trail_len(l + eol, crlf_pred()) == trail_len(l, crlf_pred()) + eol.len(),
{
    reveal_strlit("\n");
    reveal_strlit("\r\n");
    let f = crlf_pred();
    if eol == "\n"@ {
        assert((l + eol).drop_last() =~= l);
        assert((l + eol).last() == '\n');
        assert(f((l + eol).last()));
        assert(trail_len(l + eol, f) == 1 + trail_len((l + eol).drop_last(), f));
    } else {
        let l1 = l + seq!['\r'];
        assert((l + eol).drop_last() =~= l1);
        assert(l1.drop_last() =~= l);
        assert((l + eol).last() == '\n');
        assert(l1.last() == '\r');
        assert(f((l + eol).last()));
        assert(f(l1.last()));
        assert(trail_len(l + eol, f) == 1 + trail_len((l + eol).drop_last(), f));
        assert(trail_len(l1, f) == 1 + trail_len(l1.drop_last(), f));
    }
}

proof fn lemma_trail_plain(l: Seq<char>)
    requires
        plain_line(l),
    ensures
        trail_len(l, crlf_pred()) == 0,
{
    if l.len() > 0 {
        assert(!is_crlf(l.last()));
    }
}

/// The lines of a written block keep the block going.
proof fn lemma_block_end_body(t: Seq<char>, i: int, ls: Seq<Seq<char>>, eol: Seq<char>)
    requires
        is_eol(eol),
        0 <= i,
        i + terminated(ls, eol).len() <= t.len(),
        t.subrange(i, i + terminated(ls, eol).len()) == terminated(ls, eol),
        forall|k: int|
            0 <= k < ls.len() ==> plain_line(#[trigger] ls[k]) && continues_block(ls[k]),
    ensures
        block_end(t, i) == block_end(t, i + terminated(ls, eol).len()),
    decreases ls.len(),
{
    reveal_strlit("\n");
    reveal_strlit("\r\n");
    if ls.len() > 0 {
        let term = terminated(ls, eol);
        let l0 = ls[0];
        assert(plain_line(l0) && continues_block(l0));
        let n = l0.len() as int;
        let e = i + n + eol.len();
        assert forall|k: int| 0 <= k < term.len() implies t[i + k] == #[trigger] term[k] by {
            assert(t.subrange(i, i + term.len())[k] == t[i + k]);
        }
        assert(term[n + eol.len() - 1] == '\n');
        lemma_find_from_props(t, seq!['\n'], i);
        assert(matches_at(t, e - 1, seq!['\n'])) by {
            assert(t[e - 1] == term[n + eol.len() - 1]);
            assert(t.subrange(e - 1, e) =~= seq!['\n']);
        }
        assert forall|j: int| i <= j < e - 1 implies !#[trigger] matches_at(t, j, seq!['\n']) by {
            assert(t.subrange(j, j + 1)[0] == t[j]);
            assert(t[j] == term[j - i]);
            if j - i < n {
                assert(term[j - i] == l0[j - i]);
            } else {
                assert(term[j - i] == '\r');
            }
        }
        assert(find_from(t, seq!['\n'], i) == Some(e - 1));
        assert(line_end_from(t, i) == e);
        let raw = t.subrange(i, e);
        assert(raw =~= l0 + eol) by {
            assert forall|k: int| 0 <= k < raw.len() implies raw[k] == (l0 + eol)[k] by {
                assert(raw[k] == t[i + k]);
                assert(t[i + k] == term[k]);
            }
        }
        lemma_trail_eol(l0, eol);
        lemma_trail_plain(l0);
        assert(line_at(t, i) =~= l0);
        let rest = ls.drop_first();
        let term2 = terminated(rest, eol);
        assert(term =~= l0 + eol + term2);
        assert(t.subrange(e, e + term2.len()) =~= term2) by {
            assert forall|k: int| 0 <= k < term2.len() implies t.subrange(e, e + term2.len())[k]
                == term2[k] by {
                assert(t[e + k] == term[n + eol.len() + k]);
            }
        }
        assert forall|k: int| 0 <= k < rest.len() implies plain_line(#[trigger] rest[k])
            && continues_block(rest[k]) by {
            assert(rest[k] == ls[k + 1]);
        }
        lemma_block_end_body(t, e, rest, eol);
    }
}

proof fn lemma_block_end_stop(t: Seq<char>, q: int)
    requires
        0 <= q <= t.len(),
        q == t.len() || !continues_block(line_at(t, q)),
    ensures
        block_end(t, q) == q,
{
}

proof fn lemma_block_end_stops(t: Seq<char>, i: int)
    requires
        0 <= i <= t.len(),
    ensures
        block_end(t, i) == t.len() || !continues_block(line_at(t, block_end(t, i))),
    decreases t.len() - i,
{
    if i < t.len() {
        crate::commands::plugin_command::lemma_line_end_bound(t, i);
        let le = line_end_from(t, i);
        if continues_block(line_at(t, i)) {
            lemma_block_end_stops(t, le);
        }
    }
}

/// A written block: `allowBuilds:` and its lines.
pub open spec fn written_block(ls: Seq<Seq<char>>, eol: Seq<char>) -> Seq<char> {
    "allowBuilds:"@ + eol + terminated(ls, eol)
}

/// Lines that a written block may hold: plain and indented or empty.
pub open spec fn block_lines(ls: Seq<Seq<char>>) -> bool {
    &&& ls.len() > 0
    &&& forall|k: int|
        0 <= k < ls.len() ==> plain_line(#[trigger] ls[k]) && continues_block(ls[k])
}

proof fn lemma_first_match(t: Seq<char>, k: int)
    requires
        0 <= k,
        matches_at(t, k, "allowBuilds:"@),
        forall|j: int| 0 <= j < k ==> !#[trigger] matches_at(t, j, "allowBuilds:"@),
    ensures
        find_from(t, "allowBuilds:"@, 0) == Some(k),
{
    lemma_find_from_props(t, "allowBuilds:"@, 0);
}

proof fn lemma_no_match_find(t: Seq<char>, i: int)
    requires
        0 <= i,
        forall|j: int| i <= j ==> !#[trigger] matches_at(t, j, "allowBuilds:"@),
    ensures
        find_from(t, "allowBuilds:"@, i) is None,
{
    lemma_find_from_props(t, "allowBuilds:"@, i);
}

/// A text made of a head, one written block and a tail holds exactly that
/// block.
proof fn lemma_one_block(pre: Seq<char>, ls: Seq<Seq<char>>, eol: Seq<char>, u: Seq<char>)
    requires
        is_eol(eol),
        block_lines(ls),
        pre.len() == 0 || pre.last() == '\n',
        no_match(pre),
        no_match(u),
        u.len() == 0 || !continues_block(line_at(u, 0)),
    ensures
        blocks_from(pre + written_block(ls, eol) + u, 0) == seq![
            (
                pre.len() as int,
                (pre.len() + 12 + eol.len()) as int,
                (pre.len() + written_block(ls, eol).len()) as int,
            ),
        ],
{
    reveal_strlit("\n");
    reveal_strlit("\r\n");
    lemma_pattern_plain();
    let pat = "allowBuilds:"@;
    let bt = written_block(ls, eol);
    let r = pre + bt + u;
    let p0 = pre.len() as int;
    let term = terminated(ls, eol);
    assert forall|k: int| 0 <= k < bt.len() implies r[p0 + k] == #[trigger] bt[k] by {}
    // The block is found where it was written.
    assert(matches_at(r, p0, pat)) by {
        assert(r.subrange(p0, p0 + 12) =~= pat);
    }
    assert forall|j: int| 0 <= j < p0 implies !#[trigger] matches_at(r, j, pat) by {
        if matches_at(r, j, pat) {
            if j + 12 <= p0 {
                assert(pre.subrange(j, j + 12) =~= r.subrange(j, j + 12));
                assert(matches_at(pre, j, pat));
            } else {
                assert(r.subrange(j, j + 12)[p0 - 1 - j] == pre.last());
                assert(!is_crlf(pat[p0 - 1 - j]));
            }
        }
    }
    lemma_first_match(r, p0);
    // Its first line ends after the line ending.
    let al = p0 + 12 + eol.len();
    lemma_find_from_props(r, seq!['\n'], p0 + 12);
    assert(matches_at(r, al - 1, seq!['\n'])) by {
        assert(r[al - 1] == bt[12 + eol.len() - 1]);
        assert(r.subrange(al - 1, al) =~= seq!['\n']);
    }
    if eol == "\r\n"@ {
        assert(!matches_at(r, p0 + 12, seq!['\n'])) by {
            assert(r.subrange(p0 + 12, p0 + 13)[0] == r[p0 + 12]);
            assert(r[p0 + 12] == bt[12]);
        }
    }
    assert(find_from(r, seq!['\n'], p0 + 12) == Some(al - 1));
    assert(line_end_from(r, p0 + 12) == al);
    // Its body runs over the written lines, up to the tail.
    assert(r.subrange(al, al + term.len()) =~= term) by {
        assert forall|k: int| 0 <= k < term.len() implies r.subrange(al, al + term.len())[k]
            == term[k] by {
            assert(r[al + k] == bt[12 + eol.len() + k]);
        }
    }
    lemma_block_end_body(r, al, ls, eol);
    let end = p0 + bt.len();
    assert(al + term.len() == end);
    if u.len() > 0 {
        lemma_line_at_shift(pre + bt, u, 0);
        assert(pre + bt + u == r);
    }
    lemma_block_end_stop(r, end);
    assert(block_end(r, al) == end);
    // Nothing follows in the tail.
    lemma_find_shift(pre + bt, u, pat, 0);
    lemma_no_match_find(u, 0);
    assert(find_from(r, pat, end) is None);
    assert(blocks_from(r, end) == Seq::<(int, int, int)>::empty());
}

/// Merging a text that holds one written block with that same block gives
/// the text back.
proof fn lemma_merge_one_block(pre: Seq<char>, ls: Seq<Seq<char>>, eol: Seq<char>, u: Seq<char>)
    requires
        is_eol(eol),
        block_lines(ls),
        pre.len() == 0 || pre.last() == '\n',
        no_match(pre),
        no_match(u),
        u.len() == 0 || !continues_block(line_at(u, 0)),
        eol_of(pre + written_block(ls, eol) + u) == eol,
        ends_with(pre + written_block(ls, eol) + u, eol),
    ensures
        merge_result(pre + written_block(ls, eol) + u, written_block(ls, eol)) == pre
            + written_block(ls, eol) + u,
{
    lemma_one_block(pre, ls, eol, u);
    let bt = written_block(ls, eol);
    let r = pre + bt + u;
    let b = blocks_from(r, 0);
    let p0 = pre.len() as int;
    let end = p0 + bt.len();
    assert(between(r, b, 1, end) == r.skip(end));
    assert(between(r, b, 0, p0) == Seq::<char>::empty() + between(r, b, 1, end));
    assert(r.skip(end) =~= u);
    assert(r.take(p0) =~= pre);
    assert(r.take(p0) + bt + between(r, b, 0, p0) =~= r);
}

// ---------------------------------------------------------------------------
// What a merge keeps of the original text
// ---------------------------------------------------------------------------

/// Every `allowBuilds:` in `t` starts a line.
pub open spec fn blocks_start_lines(t: Seq<char>) -> bool {
    forall|j: int| #[trigger] matches_at(t, j, "allowBuilds:"@) ==> j == 0 || t[j - 1] == '\n'
}

/// `s` holds no `\r` directly before a `\n`.
pub open spec fn no_crlf_pair(s: Seq<char>) -> bool {
    forall|j: int| 0 <= j < s.len() - 1 ==> !(#[trigger] s[j] == '\r' && s[j + 1] == '\n')
}

proof fn lemma_between_shift(t: Seq<char>, b: Seq<(int, int, int)>, i: int, c: int)
    requires
        1 <= i,
        b.len() >= 1,
    ensures
        between(t, b, i, c) == between(t, b.drop_first(), i - 1, c),
    decreases b.len() - i,
{
    if i < b.len() {
        assert(b[i] == b.drop_first()[i - 1]);
        lemma_between_shift(t, b, i + 1, b[i].2);
    }
}

proof fn lemma_blocks_cons(t: Seq<char>, c: int)
    requires
        0 <= c,
        find_from(t, "allowBuilds:"@, c) is Some,
    ensures
        ({
            let s1 = find_from(t, "allowBuilds:"@, c)->0;
            let al = line_end_from(t, s1 + 12);
            let e1 = block_end(t, al);
            &&& c <= s1
            &&& s1 + 12 <= al <= e1 <= t.len()
            &&& blocks_from(t, c) == seq![(s1, al, e1)] + blocks_from(t, e1)
        }),
{
    crate::commands::plugin_command::lemma_allow_builds_block_bound(t, c);
}

/// The text a merge keeps after the first block, from the end `c` of a
/// block on: no `allowBuilds:` in it, a first line that does not go on with
/// a block, and its last character a line end or the text's own last one.
proof fn lemma_rest(t: Seq<char>, c: int)
    requires
        blocks_start_lines(t),
        0 <= c <= t.len(),
        c == t.len() || !continues_block(line_at(t, c)),
    ensures
        ({
            let w = between(t, blocks_from(t, c), 0, c);
            &&& no_match(w)
            &&& w.len() == 0 || !continues_block(line_at(w, 0))
            &&& w.len() == 0 || w.last() == '\n' || w.last() == t.last()
            &&& no_crlf_pair(t) ==> no_crlf_pair(w)
        }),
    decreases t.len() - c,
{
    lemma_pattern_plain();
    let pat = "allowBuilds:"@;
    let w = between(t, blocks_from(t, c), 0, c);
    lemma_find_from_props(t, pat, c);
    match find_from(t, pat, c) {
        None => {
            assert(blocks_from(t, c) == Seq::<(int, int, int)>::empty());
            assert(w == t.skip(c));
            let x = t.take(c);
            assert(t =~= x + w);
            assert forall|j: int| !#[trigger] matches_at(w, j, pat) by {
                if matches_at(w, j, pat) {
                    assert(t.subrange(c + j, c + j + 12) =~= w.subrange(j, j + 12));
                    assert(matches_at(t, c + j, pat));
                }
            }
            if w.len() > 0 {
                lemma_line_at_shift(x, w, 0);
            }
            if no_crlf_pair(t) {
                assert forall|j: int| 0 <= j < w.len() - 1 implies !(#[trigger] w[j] == '\r'
                    && w[j + 1] == '\n') by {
                    assert(w[j] == t[c + j]);
                    assert(w[j + 1] == t[c + j + 1]);
                }
            }
        },
        Some(s1) => {
            lemma_blocks_cons(t, c);
            let al = line_end_from(t, s1 + 12);
            let e1 = block_end(t, al);
            let b = blocks_from(t, c);
            lemma_block_end_stops(t, al);
            lemma_rest(t, e1);
            let g = between(t, blocks_from(t, e1), 0, e1);
            lemma_between_shift(t, b, 1, e1);
            assert(b.drop_first() =~= blocks_from(t, e1));
            let seg = if s1 > c {
                t.subrange(c, s1)
            } else {
                Seq::<char>::empty()
            };
            assert(w == seg + between(t, b, 1, e1));
            assert(w == seg + g);
            assert(no_match(seg)) by {
                assert forall|j: int| !#[trigger] matches_at(seg, j, pat) by {
                    if matches_at(seg, j, pat) {
                        assert(t.subrange(c + j, c + j + 12) =~= seg.subrange(j, j + 12));
                        assert(matches_at(t, c + j, pat));
                    }
                }
            }
            if seg.len() > 0 {
                assert(s1 > 0);
                assert(t[s1 - 1] == '\n');
                assert(seg.last() == '\n');
            }
            lemma_no_match_concat(seg, g);
            if seg.len() > 0 {
                // The first line lies within the kept part.
                assert(matches_at(seg, seg.len() - 1, seq!['\n'])) by {
                    assert(seg.subrange(seg.len() - 1, seg.len() as int) =~= seq!['\n']);
                }
                lemma_find_from_props(seg, seq!['\n'], 0);
                lemma_line_at_prefix(seg, g);
                lemma_line_at_prefix(seg, t.skip(s1));
                lemma_line_at_shift(t.take(c), seg + t.skip(s1), 0);
                assert(t.take(c) + (seg + t.skip(s1)) =~= t);
            }
            if g.len() > 0 {
                assert((seg + g).last() == g.last());
            }
            if no_crlf_pair(t) {
                assert forall|j: int| 0 <= j < w.len() - 1 implies !(#[trigger] w[j] == '\r'
                    && w[j + 1] == '\n') by {
                    if j + 1 < seg.len() {
                        assert(w[j] == t[c + j]);
                        assert(w[j + 1] == t[c + j + 1]);
                    } else if j + 1 == seg.len() {
                        assert(w[j] == seg.last());
                    } else {
                        assert(w[j] == g[j - seg.len()]);
                        assert(w[j + 1] == g[j + 1 - seg.len()]);
                    }
                }
            }
        },
    }
}

proof fn lemma_no_pair_concat(x: Seq<char>, y: Seq<char>)
    requires
        no_crlf_pair(x),
        no_crlf_pair(y),
        x.len() == 0 || y.len() == 0 || x.last() != '\r' || y[0] != '\n',
    ensures
        no_crlf_pair(x + y),
{
    let z = x + y;
    assert forall|j: int| 0 <= j < z.len() - 1 implies !(#[trigger] z[j] == '\r' && z[j + 1]
        == '\n') by {
        if j + 1 < x.len() {
            assert(z[j] == x[j] && z[j + 1] == x[j + 1]);
        } else if j + 1 == x.len() {
            assert(z[j] == x.last() && z[j + 1] == y[0]);
        } else {
            assert(z[j] == y[j - x.len()] && z[j + 1] == y[j + 1 - x.len()]);
        }
    }
}

/// A text without `\r` holds no `\r\n`.
proof fn lemma_no_cr(s: Seq<char>)
    requires
        forall|k: int| 0 <= k < s.len() ==> #[trigger] s[k] != '\r',
    ensures
        no_crlf_pair(s),
{
}

proof fn lemma_terminated_no_cr(ls: Seq<Seq<char>>)
    requires
        forall|k: int| 0 <= k < ls.len() ==> plain_line(#[trigger] ls[k]),
    ensures
        forall|k: int|
            0 <= k < terminated(ls, "\n"@).len() ==> #[trigger] terminated(ls, "\n"@)[k] != '\r',
    decreases ls.len(),
{
    reveal_strlit("\n");
    if ls.len() > 0 {
        let rest = ls.drop_first();
        assert forall|k: int| 0 <= k < rest.len() implies plain_line(#[trigger] rest[k]) by {
            assert(rest[k] == ls[k + 1]);
        }
        lemma_terminated_no_cr(rest);
        let l0 = ls[0];
        assert(plain_line(l0));
        let t = terminated(ls, "\n"@);
        let t2 = terminated(rest, "\n"@);
        assert(t =~= l0 + "\n"@ + t2);
        assert forall|k: int| 0 <= k < t.len() implies #[trigger] t[k] != '\r' by {
            if k < l0.len() {
                assert(t[k] == l0[k]);
            } else if k > l0.len() {
                assert(t[k] == t2[k - l0.len() - 1]);
            }
        }
    }
}

/// `contains(s, "\r\n")` is a `\r` right before a `\n`.
proof fn lemma_crlf_contains(s: Seq<char>)
    ensures
        !crate::text::contains(s, "\r\n"@) <==> no_crlf_pair(s),
{
    reveal_strlit("\r\n");
    lemma_find_from_props(s, "\r\n"@, 0);
    if crate::text::contains(s, "\r\n"@) {
        let k = find(s, "\r\n"@)->0;
        assert(s.subrange(k, k + 2)[0] == s[k] && s.subrange(k, k + 2)[1] == s[k + 1]);
    } else {
        assert forall|j: int| 0 <= j < s.len() - 1 implies !(#[trigger] s[j] == '\r' && s[j + 1]
            == '\n') by {
            if s[j] == '\r' && s[j + 1] == '\n' {
                assert(s.subrange(j, j + 2) =~= "\r\n"@);
                assert(matches_at(s, j, "\r\n"@));
            }
        }
    }
}

proof fn lemma_ends_with_tail(x: Seq<char>, y: Seq<char>, e: Seq<char>)
    requires
        ends_with(y, e),
    ensures
        ends_with(x + y, e),
{
    assert((x + y).skip((x + y).len() - e.len()) =~= y.skip(y.len() - e.len()));
}

proof fn lemma_written_block_props(ls: Seq<Seq<char>>, eol: Seq<char>)
    requires
        is_eol(eol),
        block_lines(ls),
    ensures
        ends_with(written_block(ls, eol), eol),
        written_block(ls, eol).len() > 12 + eol.len(),
        written_block(ls, eol)[12] == eol[0],
        eol == "\r\n"@ ==> written_block(ls, eol)[13] == '\n',
        eol == "\n"@ ==> no_crlf_pair(written_block(ls, eol)),
        written_block(ls, eol).last() == '\n',
{
    reveal_strlit("\n");
    reveal_strlit("\r\n");
    lemma_pattern_plain();
    let term = terminated(ls, eol);
    let rest = terminated(ls.drop_first(), eol);
    assert(term =~= ls[0] + eol + rest);
    let bt = written_block(ls, eol);
    if rest.len() == 0 {
        assert(term.skip(term.len() - eol.len()) =~= eol);
    } else {
        // The written lines end with a line ending: the last one does.
        lemma_join_terminated(ls, eol);
        assert(term.skip(term.len() - eol.len()) =~= eol);
    }
    lemma_ends_with_tail("allowBuilds:"@ + eol, term, eol);
    assert(bt.last() == eol.last());
    if eol == "\n"@ {
        lemma_terminated_no_cr(ls);
        assert forall|k: int| 0 <= k < bt.len() implies #[trigger] bt[k] != '\r' by {
            if k < 12 {
                assert(bt[k] == "allowBuilds:"@[k]);
            } else if k > 12 {
                assert(bt[k] == term[k - 13]);
            }
        }
        lemma_no_cr(bt);
    }
}

/// What a tail keeps under the properties the second merge needs.
pub open spec fn good_tail(u: Seq<char>) -> bool {
    &&& no_match(u)
    &&& u.len() == 0 || !continues_block(line_at(u, 0))
}

/// A kept tail with a line ending added is still a good tail.
proof fn lemma_tail_with_eol(w: Seq<char>, eol: Seq<char>)
    requires
        is_eol(eol),
        good_tail(w),
        w.len() > 0,
    ensures
        good_tail(w + eol),
{
    reveal_strlit("\n");
    reveal_strlit("\r\n");
    let u = w + eol;
    assert(no_match(eol)) by {
        lemma_pattern_plain();
        assert forall|j: int| !#[trigger] matches_at(eol, j, "allowBuilds:"@) by {}
    }
    lemma_no_match_concat(w, eol);
    lemma_find_from_props(w, seq!['\n'], 0);
    if find_from(w, seq!['\n'], 0) is Some {
        lemma_line_at_prefix(w, eol);
    } else {
        let i = w.len() + eol.len() - 1;
        lemma_find_from_props(u, seq!['\n'], 0);
        assert(matches_at(u, i, seq!['\n'])) by {
            assert(u.subrange(i, i + 1) =~= seq!['\n']);
        }
        assert forall|j: int| 0 <= j < i implies !#[trigger] matches_at(u, j, seq!['\n']) by {
            if j < w.len() {
                assert(!matches_at(w, j, seq!['\n']));
                assert(u.subrange(j, j + 1) =~= w.subrange(j, j + 1));
            } else {
                assert(u.subrange(j, j + 1)[0] == '\r');
            }
        }
        assert(line_end_from(u, 0) == u.len());
        assert(line_end_from(w, 0) == w.len());
        lemma_trail_eol(w, eol);
        crate::text::lemma_trail_bound(w, crlf_pred());
        assert(u.subrange(0, u.len() as int) =~= u);
        assert(w.subrange(0, w.len() as int) =~= w);
        assert(line_at(u, 0) =~= line_at(w, 0));
    }
}

/// The first merge writes a head, the written block and a tail that the
/// second merge reads as exactly that block.
#[verifier::spinoff_prover]
#[verifier::rlimit(60)]
proof fn lemma_first_merge(yaml: Seq<char>, ls: Seq<Seq<char>>) -> (pu: (Seq<char>, Seq<char>))
    requires
        blocks_start_lines(yaml),
        !(yaml.len() > 0 && yaml.last() == '\r'),
        block_lines(ls),
    ensures
        ({
            let eol = eol_of(yaml);
            let r = merge_result(yaml, written_block(ls, eol));
            &&& r == pu.0 + written_block(ls, eol) + pu.1
            &&& pu.0.len() == 0 || pu.0.last() == '\n'
            &&& no_match(pu.0)
            &&& good_tail(pu.1)
            &&& ends_with(r, eol)
            &&& eol_of(r) == eol
        }),
{
    reveal_strlit("\n");
    reveal_strlit("\r\n");
    lemma_pattern_plain();
    let pat = "allowBuilds:"@;
    let eol = eol_of(yaml);
    assert(is_eol(eol));
    let bt = written_block(ls, eol);
    lemma_written_block_props(ls, eol);
    let r = merge_result(yaml, bt);
    let b = blocks_from(yaml, 0);
    lemma_find_from_props(yaml, pat, 0);
    lemma_crlf_contains(yaml);
    let (pre, u) = match find_from(yaml, pat, 0) {
        Some(s0) => {
            lemma_blocks_cons(yaml, 0);
            let a0 = line_end_from(yaml, s0 + 12);
            let e0 = block_end(yaml, a0);
            lemma_block_end_stops(yaml, a0);
            lemma_rest(yaml, e0);
            lemma_between_shift(yaml, b, 1, e0);
            assert(b.drop_first() =~= blocks_from(yaml, e0));
            let w = between(yaml, blocks_from(yaml, e0), 0, e0);
            assert(between(yaml, b, 0, s0) == w);
            let pre = yaml.take(s0);
            assert(no_match(pre)) by {
                assert forall|j: int| !#[trigger] matches_at(pre, j, pat) by {
                    if matches_at(pre, j, pat) {
                        assert(yaml.subrange(j, j + 12) =~= pre.subrange(j, j + 12));
                        assert(matches_at(yaml, j, pat));
                    }
                }
            }
            if s0 > 0 {
                assert(yaml[s0 - 1] == '\n');
                assert(pre.last() == '\n');
            }
            let next = pre + bt + w;
            if w.len() == 0 {
                assert(next =~= pre + bt);
                lemma_ends_with_tail(pre, bt, eol);
            }
            if eol == "\n"@ {
                assert forall|j: int| 0 <= j < pre.len() - 1 implies !(#[trigger] pre[j] == '\r'
                    && pre[j + 1] == '\n') by {
                    assert(pre[j] == yaml[j] && pre[j + 1] == yaml[j + 1]);
                }
                lemma_no_pair_concat(pre, bt);
            }
            if ends_with(next, eol) {
                assert(r == next);
                assert(ends_with(r, eol));
                if eol == "\n"@ {
                    lemma_no_pair_concat(pre + bt, w);
                    assert(no_crlf_pair(r));
                }
                (pre, w)
            } else {
                lemma_tail_with_eol(w, eol);
                assert(r == next + eol);
                assert(eol.skip(0) =~= eol);
                lemma_ends_with_tail(next, eol, eol);
                assert(ends_with(r, eol));
                assert(r =~= pre + bt + (w + eol));
                if eol == "\n"@ {
                    assert(no_crlf_pair(eol));
                    lemma_no_pair_concat(w, eol);
                    lemma_no_pair_concat(pre + bt, w + eol);
                    assert(no_crlf_pair(r));
                }
                (pre, w + eol)
            }
        },
        None => {
            assert(no_match(yaml));
            assert(b == Seq::<(int, int, int)>::empty());
            if yaml.len() == 0 {
                assert(r =~= Seq::<char>::empty() + bt + Seq::<char>::empty());
                (Seq::<char>::empty(), Seq::<char>::empty())
            } else if ends_with(yaml, "\n"@) {
                assert(yaml.last() == yaml.skip(yaml.len() - 1)[0]);
                assert(r =~= yaml + bt + Seq::<char>::empty());
                if eol == "\n"@ {
                    lemma_no_pair_concat(yaml, bt);
                    assert(no_crlf_pair(r));
                }
                (yaml, Seq::<char>::empty())
            } else {
                assert(no_match(eol)) by {
                    assert forall|j: int| !#[trigger] matches_at(eol, j, pat) by {}
                }
                lemma_no_match_concat(yaml, eol);
                assert(r =~= (yaml + eol) + bt + Seq::<char>::empty());
                if eol == "\n"@ {
                    assert(no_crlf_pair(eol));
                    lemma_no_pair_concat(yaml, eol);
                    lemma_no_pair_concat(yaml + eol, bt);
                    assert(no_crlf_pair(r));
                }
                (yaml + eol, Seq::<char>::empty())
            }
        },
    };
    assert(r == pre + bt + u);
    // The merged text ends with the line ending.
    if find_from(yaml, pat, 0) is None {
        assert(r =~= pre + bt);
        lemma_ends_with_tail(pre, bt, eol);
    }
    // It uses the same line ending as the original.
    lemma_crlf_contains(r);
    if eol == "\r\n"@ {
        assert(r[pre.len() + 12int] == '\r' && r[pre.len() + 13int] == '\n');
        assert(!no_crlf_pair(r));
    } else {
        assert(no_crlf_pair(r));
    }
    assert(r == pre + bt + u);
    assert(pre.len() == 0 || pre.last() == '\n');
    assert(no_match(pre));
    assert(good_tail(u));
    assert(ends_with(r, eol));
    assert(eol_of(r) == eol);
    (pre, u)
}

// ---------------------------------------------------------------------------
// Reading the written block back
// ---------------------------------------------------------------------------

/// The lines of the block written for entries `s` (one empty line when
/// there are none).
pub open spec fn block_lines_of(s: Seq<(Seq<char>, Seq<char>)>) -> Seq<Seq<char>> {
    if s.len() == 0 {
        seq![Seq::<char>::empty()]
    } else {
        s.map_values(|e: (Seq<char>, Seq<char>)| entry_line(e))
    }
}

/// Entries an `allowBuilds` block can hold.
pub open spec fn valid_entries(s: Seq<(Seq<char>, Seq<char>)>) -> bool {
    forall|j: int| 0 <= j < s.len() ==> valid_entry(#[trigger] s[j].0, s[j].1)
}

proof fn lemma_block_text(s: Seq<(Seq<char>, Seq<char>)>, eol: Seq<char>)
    requires
        is_eol(eol),
        valid_entries(s),
    ensures
        block_text(s, eol) == written_block(block_lines_of(s), eol),
        block_lines(block_lines_of(s)),
        lines(terminated(block_lines_of(s), eol)) == block_lines_of(s),
{
    let ls = block_lines_of(s);
    let el = s.map_values(|e: (Seq<char>, Seq<char>)| entry_line(e));
    if s.len() == 0 {
        assert(el =~= Seq::<Seq<char>>::empty());
        assert(ls.drop_first() =~= Seq::<Seq<char>>::empty());
        assert(terminated(ls.drop_first(), eol) == Seq::<char>::empty());
        assert(terminated(ls, eol) =~= eol);
        assert(block_text(s, eol) =~= written_block(ls, eol));
        assert forall|k: int| 0 <= k < ls.len() implies plain_line(#[trigger] ls[k])
            && continues_block(ls[k]) by {
            assert(ls[k] == Seq::<char>::empty());
        }
    } else {
        assert forall|k: int| 0 <= k < ls.len() implies plain_line(#[trigger] ls[k])
            && continues_block(ls[k]) by {
            assert(valid_entry(s[k].0, s[k].1));
            lemma_entry_line(s[k]);
        }
        lemma_join_terminated(ls, eol);
        assert(block_text(s, eol) =~= written_block(ls, eol));
    }
    lemma_lines_terminated(ls, eol);
}

proof fn lemma_empty_line_is_no_entry()
    ensures
        parse_entry_spec(Seq::<char>::empty()) is None,
{
    assert(trim(Seq::<char>::empty()) =~= Seq::<char>::empty());
}

/// A text holding one block written for `s` reads back as the entries of
/// `s`, and keys already allowed there add nothing.
proof fn lemma_reread(
    yaml: Seq<char>,
    keys: Seq<Seq<char>>,
    keys2: Seq<Seq<char>>,
    s: Seq<(Seq<char>, Seq<char>)>,
    pre: Seq<char>,
    eol: Seq<char>,
    u: Seq<char>,
)
    requires
        is_eol(eol),
        represents(s, merged_map(yaml, keys)),
        forall|j: int|
            0 <= j < keys2.len() && package_name_valid(#[trigger] keys2[j]) ==> exists|i: int|
                0 <= i < keys.len() && keys[i] == keys2[j],
        pre.len() == 0 || pre.last() == '\n',
        no_match(pre),
        good_tail(u),
    ensures
        valid_entries(s),
        merged_map(pre + written_block(block_lines_of(s), eol) + u, keys2) == merged_map(
            yaml,
            keys,
        ),
{
    let m = merged_map(yaml, keys);
    let x = add_blocks(yaml, blocks_from(yaml, 0), 0, Map::empty());
    lemma_add_blocks_valid(yaml, blocks_from(yaml, 0), 0, Map::empty());
    lemma_add_keys(keys, 0, x);
    assert forall|j: int| 0 <= j < s.len() implies valid_entry(#[trigger] s[j].0, s[j].1) by {
        assert(m.contains_key(s[j].0));
    }
    let ls = block_lines_of(s);
    lemma_block_text(s, eol);
    let bt = written_block(ls, eol);
    let r = pre + bt + u;
    lemma_one_block(pre, ls, eol, u);
    let b = blocks_from(r, 0);
    let p0 = pre.len() as int;
    let al = p0 + 12 + eol.len();
    let end = p0 + bt.len();
    let term = terminated(ls, eol);
    lemma_pattern_plain();
    assert(bt =~= "allowBuilds:"@ + eol + term);
    assert(r.subrange(al, end) =~= term) by {
        assert forall|k: int| 0 <= k < term.len() implies r.subrange(al, end)[k] == term[k] by {
            assert(r[al + k] == bt[12 + eol.len() + k]);
        }
    }
    let a = add_lines(lines(term), 0, Map::empty());
    assert(add_blocks(r, b, 1, a) == a);
    assert(add_blocks(r, b, 0, Map::empty()) == a);
    // The block reads back as the merged entries.
    if s.len() == 0 {
        lemma_empty_line_is_no_entry();
        assert(add_lines(ls, 1, Map::<Seq<char>, Seq<char>>::empty()) == Map::<
            Seq<char>,
            Seq<char>,
        >::empty());
        assert(a == Map::<Seq<char>, Seq<char>>::empty());
        assert forall|k: Seq<char>| !#[trigger] m.contains_key(k) by {}
        assert(a =~= m);
    } else {
        assert forall|j: int| 0 <= j < s.len() implies parse_entry_spec(#[trigger] ls[j]) == Some(
            s[j],
        ) by {
            lemma_entry_line(s[j]);
        }
        lemma_add_lines_rep(ls, s, 0, Map::empty());
        assert forall|k: Seq<char>| #[trigger] a.contains_key(k) <==> m.contains_key(k) by {
            if m.contains_key(k) {
                let i = choose|i: int| 0 <= i < s.len() && s[i].0 == k;
            }
            if a.contains_key(k) {
                let i = choose|i: int| 0 <= i < s.len() && s[i].0 == k;
            }
        }
        assert forall|k: Seq<char>| #[trigger] a.contains_key(k) implies a[k] == m[k] by {
            let i = choose|i: int| 0 <= i < s.len() && s[i].0 == k;
        }
        assert(a =~= m);
    }
    // Keys that are allowed already add nothing.
    assert forall|j: int|
        0 <= j < keys2.len() && package_name_valid(#[trigger] keys2[j]) implies m.contains_key(
        keys2[j],
    ) && m[keys2[j]] == "true"@ by {
        let i = choose|i: int| 0 <= i < keys.len() && keys[i] == keys2[j];
        assert(keys[i] == keys2[j]);
        assert(key_among(keys, 0, keys2[j]));
        assert(m == add_keys(keys, 0, x));
        assert(add_keys(keys, 0, x).contains_key(keys2[j]));
    }
    lemma_add_keys_again(keys2, m);
}

/// Merging a text that a merge wrote again, with the same keys, a part of
/// them or none, gives the same text back. This holds where every
/// `allowBuilds:` of the original text starts a line and the text does not
/// end with a lone `\r` (which the line ending added by the first merge
/// would turn into a `\r\n`, changing the line ending the second merge
/// writes).
pub proof fn law_merge_again_changes_nothing(
    yaml: Seq<char>,
    keys: Seq<Seq<char>>,
    keys2: Seq<Seq<char>>,
    r: Seq<char>,
    r2: Seq<char>,
)
    requires
        blocks_start_lines(yaml),
        !(yaml.len() > 0 && yaml.last() == '\r'),
        forall|j: int|
            0 <= j < keys2.len() && package_name_valid(#[trigger] keys2[j]) ==> exists|i: int|
                0 <= i < keys.len() && keys[i] == keys2[j],
        merged_content(yaml, keys, r),
        merged_content(r, keys2, r2),
    ensures
        r2 == r,
{
    let m = merged_map(yaml, keys);
    let eol = eol_of(yaml);
    reveal_strlit("\n");
    reveal_strlit("\r\n");
    assert(is_eol(eol));
    let s = choose|s: Seq<(Seq<char>, Seq<char>)>|
        #[trigger] represents(s, m) && r == merge_result(yaml, block_text(s, eol));
    let x = add_blocks(yaml, blocks_from(yaml, 0), 0, Map::empty());
    lemma_add_blocks_valid(yaml, blocks_from(yaml, 0), 0, Map::empty());
    lemma_add_keys(keys, 0, x);
    assert(valid_entries(s)) by {
        assert forall|j: int| 0 <= j < s.len() implies valid_entry(#[trigger] s[j].0, s[j].1) by {
            assert(m.contains_key(s[j].0));
        }
    }
    let ls = block_lines_of(s);
    lemma_block_text(s, eol);
    let (pre, u) = lemma_first_merge(yaml, ls);
    let bt = written_block(ls, eol);
    assert(r == pre + bt + u);
    lemma_reread(yaml, keys, keys2, s, pre, eol, u);
    assert(merged_map(r, keys2) == m);
    let s2 = choose|s2: Seq<(Seq<char>, Seq<char>)>|
        #[trigger] represents(s2, merged_map(r, keys2)) && r2 == merge_result(
            r,
            block_text(s2, eol_of(r)),
        );
    lemma_represents_unique(s, s2, m);
    lemma_merge_one_block(pre, ls, eol, u);
}

} // verus!
