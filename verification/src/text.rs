//! Character-sequence helpers shared by the parsers of this crate.
//!
//! Text is handled as a vector of `char`; the spec side speaks of `Seq<char>`.
use vstd::prelude::*;

verus! {

broadcast use vstd::string::group_string_axioms;

// ---------------------------------------------------------------------------
// Specification layer
// ---------------------------------------------------------------------------

/// Unicode `White_Space`, as `char::is_whitespace` decides it.
pub open spec fn is_ws(c: char) -> bool {
    let v: u32 = c as u32;
    ||| 0x9 <= v <= 0xd
    ||| v == 0x20
    ||| v == 0x85
    ||| v == 0xa0
    ||| v == 0x1680
    ||| 0x2000 <= v <= 0x200a
    ||| v == 0x2028
    ||| v == 0x2029
    ||| v == 0x202f
    ||| v == 0x205f
    ||| v == 0x3000
}

/// Unicode general category `Cc`, as `char::is_control` decides it.
pub open spec fn is_cc(c: char) -> bool {
    let v: u32 = c as u32;
    v <= 0x1f || (0x7f <= v <= 0x9f)
}

/// ASCII letters and digits.
pub open spec fn is_ascii_alnum(c: char) -> bool {
    let v: u32 = c as u32;
    (0x30 <= v <= 0x39) || (0x41 <= v <= 0x5a) || (0x61 <= v <= 0x7a)
}

/// Number of bytes of `c` in UTF-8.
pub open spec fn utf8_width(c: char) -> nat {
    let v: u32 = c as u32;
    if v < 0x80 {
        1
    } else if v < 0x800 {
        2
    } else if v < 0x10000 {
        3
    } else {
        4
    }
}

/// Number of bytes of `s` in UTF-8 (what `str::len` reports).
pub open spec fn byte_len(s: Seq<char>) -> nat
    decreases s.len(),
{
    if s.len() == 0 {
        0
    } else {
        byte_len(s.drop_last()) + utf8_width(s.last())
    }
}

/// `p` occurs in `s` at index `i`.
pub open spec fn matches_at(s: Seq<char>, i: int, p: Seq<char>) -> bool {
    0 <= i && i + p.len() <= s.len() && s.subrange(i, i + p.len()) == p
}

/// First index at or after `i` where `p` occurs in `s`.
pub open spec fn find_from(s: Seq<char>, p: Seq<char>, i: int) -> Option<int>
    decreases s.len() + 1 - i,
{
    if i < 0 || i + p.len() > s.len() {
        None
    } else if matches_at(s, i, p) {
        Some(i)
    } else {
        find_from(s, p, i + 1)
    }
}

/// First index where `p` occurs in `s` (`str::find`).
pub open spec fn find(s: Seq<char>, p: Seq<char>) -> Option<int> {
    find_from(s, p, 0)
}

/// `p` occurs somewhere in `s` (`str::contains`).
pub open spec fn contains(s: Seq<char>, p: Seq<char>) -> bool {
    find(s, p) is Some
}

/// `s` begins with `p`.
pub open spec fn starts_with(s: Seq<char>, p: Seq<char>) -> bool {
    p.len() <= s.len() && s.take(p.len() as int) == p
}

/// `s` ends with `p`.
pub open spec fn ends_with(s: Seq<char>, p: Seq<char>) -> bool {
    p.len() <= s.len() && s.skip(s.len() - p.len()) == p
}

/// Last index of `c` in `s` strictly before `i`.
pub open spec fn rfind_before(s: Seq<char>, c: char, i: int) -> Option<int>
    decreases i,
{
    if i <= 0 {
        None
    } else if s[i - 1] == c {
        Some(i - 1)
    } else {
        rfind_before(s, c, i - 1)
    }
}

/// Last index of `c` in `s` (`str::rfind` with a char).
pub open spec fn rfind(s: Seq<char>, c: char) -> Option<int> {
    rfind_before(s, c, s.len() as int)
}

/// Length of the leading run of characters of `s` that satisfy `f`.
pub open spec fn lead_len(s: Seq<char>, f: spec_fn(char) -> bool) -> nat
    decreases s.len(),
{
    if s.len() > 0 && f(s[0]) {
        1 + lead_len(s.drop_first(), f)
    } else {
        0
    }
}

/// Length of the trailing run of characters of `s` that satisfy `f`.
pub open spec fn trail_len(s: Seq<char>, f: spec_fn(char) -> bool) -> nat
    decreases s.len(),
{
    if s.len() > 0 && f(s.last()) {
        1 + trail_len(s.drop_last(), f)
    } else {
        0
    }
}

pub open spec fn ws_pred() -> spec_fn(char) -> bool {
    |c: char| is_ws(c)
}

pub open spec fn non_ws_pred() -> spec_fn(char) -> bool {
    |c: char| !is_ws(c)
}

/// `str::trim_start`.
pub open spec fn trim_start(s: Seq<char>) -> Seq<char> {
    s.skip(lead_len(s, ws_pred()) as int)
}

/// `str::trim_end`.
pub open spec fn trim_end(s: Seq<char>) -> Seq<char> {
    s.take(s.len() - trail_len(s, ws_pred()))
}

/// `str::trim`.
pub open spec fn trim(s: Seq<char>) -> Seq<char> {
    trim_end(trim_start(s))
}

/// `str::split_whitespace`: the maximal runs of non-whitespace characters.
pub open spec fn words(s: Seq<char>) -> Seq<Seq<char>>
    decreases s.len(),
{
    let t = trim_start(s);
    if t.len() == 0 {
        seq![]
    } else {
        let w = lead_len(t, non_ws_pred());
        proof {
            lemma_lead_len_bound(s, ws_pred());
            lemma_lead_len_bound(t, non_ws_pred());
        }
        if w == 0 {
            seq![]
        } else {
            seq![t.take(w as int)] + words(t.skip(w as int))
        }
    }
}

/// The pieces of `s` between occurrences of `c` (`str::split` with a char).
pub open spec fn split_char(s: Seq<char>, c: char) -> Seq<Seq<char>>
    decreases s.len(),
{
    match find(s, seq![c]) {
        None => seq![s],
        Some(i) => {
            proof {
                lemma_find_from_props(s, seq![c], 0);
            }
            seq![s.take(i)] + split_char(s.skip(i + 1), c)
        },
    }
}

/// The words of `parts` joined by `sep`.
pub open spec fn join(parts: Seq<Seq<char>>, sep: Seq<char>) -> Seq<char>
    decreases parts.len(),
{
    if parts.len() == 0 {
        seq![]
    } else if parts.len() == 1 {
        parts[0]
    } else {
        join(parts.drop_last(), sep) + sep + parts.last()
    }
}

/// Every character of `s` satisfies `f`.
pub open spec fn all_chars(s: Seq<char>, f: spec_fn(char) -> bool) -> bool {
    forall|i: int| 0 <= i < s.len() ==> #[trigger] f(s[i])
}

pub open spec fn digit_char(d: nat) -> char {
    (d + 0x30) as char
}

/// Decimal rendering of `n`.
pub open spec fn dec(n: nat) -> Seq<char>
    decreases n,
{
    if n < 10 {
        seq![digit_char(n)]
    } else {
        dec(n / 10).push(digit_char(n % 10))
    }
}


/// `str::replace`: every non-overlapping occurrence of `p` (left to right) replaced by `r`.
pub open spec fn replace_all(s: Seq<char>, p: Seq<char>, r: Seq<char>) -> Seq<char>
    recommends
        p.len() > 0,
    decreases s.len(),
{
    if p.len() == 0 {
        s
    } else {
        match find(s, p) {
            None => s,
            Some(i) => {
                proof {
                    lemma_find_from_props(s, p, 0);
                }
                s.take(i) + r + replace_all(s.skip(i + p.len()), p, r)
            },
        }
    }
}

/// `str::lines`: pieces between `\n`, each without a `\r` that precedes its `\n`;
/// no empty piece after a final `\n`.
pub open spec fn lines(s: Seq<char>) -> Seq<Seq<char>>
    decreases s.len(),
{
    if s.len() == 0 {
        seq![]
    } else {
        match find(s, seq!['\n']) {
            None => seq![s],
            Some(i) => {
                proof {
                    lemma_find_from_props(s, seq!['\n'], 0);
                }
                seq![
                    if i > 0 && s[i - 1] == '\r' {
                        s.take(i - 1)
                    } else {
                        s.take(i)
                    },
                ] + lines(s.skip(i + 1))
            },
        }
    }
}

/// Lexicographic order of character sequences by code point (`String`'s `<`).
pub open spec fn seq_lt(a: Seq<char>, b: Seq<char>) -> bool
    decreases a.len(),
{
    if a.len() == 0 {
        b.len() > 0
    } else if b.len() == 0 {
        false
    } else if a[0] != b[0] {
        a[0] < b[0]
    } else {
        seq_lt(a.drop_first(), b.drop_first())
    }
}

/// `v` with `x` appended unless it is already there.
pub open spec fn push_unique(v: Seq<Seq<char>>, x: Seq<char>) -> Seq<Seq<char>> {
    if v.contains(x) {
        v
    } else {
        v.push(x)
    }
}

/// `Path::join` on Unix: an absolute segment replaces the base; otherwise a
/// `/` separates them unless the base is empty or already ends with one.
pub open spec fn join_path(base: Seq<char>, seg: Seq<char>) -> Seq<char> {
    if seg.len() > 0 && seg[0] == '/' {
        seg
    } else if base.len() == 0 || base.last() == '/' {
        base + seg
    } else {
        base + seq!['/'] + seg
    }
}
// ---------------------------------------------------------------------------
// Lemmas
// ---------------------------------------------------------------------------

pub proof fn lemma_byte_len_concat(a: Seq<char>, b: Seq<char>)
    ensures
        byte_len(a + b) == byte_len(a) + byte_len(b),
    decreases b.len(),
{
    if b.len() == 0 {
        assert(a + b =~= a);
    } else {
        lemma_byte_len_concat(a, b.drop_last());
        assert((a + b).drop_last() =~= a + b.drop_last());
    }
}

pub proof fn lemma_byte_len_ge_len(s: Seq<char>)
    ensures
        byte_len(s) >= s.len(),
    decreases s.len(),
{
    if s.len() > 0 {
        lemma_byte_len_ge_len(s.drop_last());
    }
}

/// A run of characters satisfying `f` from `i` to `j`, stopped at `j`, has length `j - i`.
pub proof fn lemma_lead_len_run(s: Seq<char>, f: spec_fn(char) -> bool, i: int, j: int)
    requires
        0 <= i <= j <= s.len(),
        forall|k: int| i <= k < j ==> #[trigger] f(s[k]),
        j == s.len() || !f(s[j]),
    ensures
        lead_len(s.skip(i), f) == j - i,
    decreases j - i,
{
    if i < j {
        lemma_lead_len_run(s, f, i + 1, j);
        assert(s.skip(i).drop_first() =~= s.skip(i + 1));
    } else if j < s.len() {
        assert(s.skip(i)[0] == s[j]);
    }
}

/// A trailing run of characters satisfying `f` from `j` to `i`, stopped before `j`.
pub proof fn lemma_trail_len_run(s: Seq<char>, f: spec_fn(char) -> bool, j: int, i: int)
    requires
        0 <= j <= i <= s.len(),
        forall|k: int| j <= k < i ==> #[trigger] f(s[k]),
        j == 0 || !f(s[j - 1]),
    ensures
        trail_len(s.take(i), f) == i - j,
    decreases i - j,
{
    if j < i {
        lemma_trail_len_run(s, f, j, i - 1);
        assert(s.take(i).drop_last() =~= s.take(i - 1));
    } else if j > 0 {
        assert(s.take(i).last() == s[j - 1]);
    }
}

pub proof fn lemma_lead_len_bound(s: Seq<char>, f: spec_fn(char) -> bool)
    ensures
        lead_len(s, f) <= s.len(),
        forall|k: int| 0 <= k < lead_len(s, f) ==> #[trigger] f(s[k]),
        lead_len(s, f) < s.len() ==> !f(s[lead_len(s, f) as int]),
    decreases s.len(),
{
    if s.len() > 0 && f(s[0]) {
        lemma_lead_len_bound(s.drop_first(), f);
        assert forall|k: int| 0 <= k < lead_len(s, f) implies #[trigger] f(s[k]) by {
            if k > 0 {
                assert(s[k] == s.drop_first()[k - 1]);
            }
        }
    }
}

pub proof fn lemma_find_from_props(s: Seq<char>, p: Seq<char>, i: int)
    requires
        0 <= i,
    ensures
        match find_from(s, p, i) {
            Some(k) => i <= k && matches_at(s, k, p) && forall|j: int|
                i <= j < k ==> !#[trigger] matches_at(s, j, p),
            None => forall|j: int| i <= j ==> !#[trigger] matches_at(s, j, p),
        },
    decreases s.len() + 1 - i,
{
    if i + p.len() > s.len() {
    } else if matches_at(s, i, p) {
    } else {
        lemma_find_from_props(s, p, i + 1);
    }
}

pub proof fn lemma_rfind_props(s: Seq<char>, c: char, i: int)
    requires
        0 <= i <= s.len(),
    ensures
        match rfind_before(s, c, i) {
            Some(k) => 0 <= k < i && s[k] == c && forall|j: int| k < j < i ==> s[j] != c,
            None => forall|j: int| 0 <= j < i ==> s[j] != c,
        },
    decreases i,
{
    if i > 0 && s[i - 1] != c {
        lemma_rfind_props(s, c, i - 1);
    }
}


pub proof fn lemma_seq_lt_irrefl(a: Seq<char>)
    ensures
        !seq_lt(a, a),
    decreases a.len(),
{
    if a.len() > 0 {
        lemma_seq_lt_irrefl(a.drop_first());
    }
}

pub proof fn lemma_seq_lt_asym(a: Seq<char>, b: Seq<char>)
    ensures
        seq_lt(a, b) ==> !seq_lt(b, a),
    decreases a.len(),
{
    if a.len() > 0 && b.len() > 0 && a[0] == b[0] {
        lemma_seq_lt_asym(a.drop_first(), b.drop_first());
    }
}

pub proof fn lemma_seq_lt_trans(a: Seq<char>, b: Seq<char>, c: Seq<char>)
    requires
        seq_lt(a, b),
        seq_lt(b, c),
    ensures
        seq_lt(a, c),
    decreases a.len(),
{
    if a.len() > 0 && b.len() > 0 && c.len() > 0 && a[0] == b[0] && b[0] == c[0] {
        lemma_seq_lt_trans(a.drop_first(), b.drop_first(), c.drop_first());
    }
}

/// A text contains what stands in its middle.
pub proof fn lemma_contains_middle(a: Seq<char>, m: Seq<char>, b: Seq<char>)
    ensures
        contains(a + m + b, m),
{
    let s = a + m + b;
    assert(s.subrange(a.len() as int, (a.len() + m.len()) as int) =~= m);
    assert(matches_at(s, a.len() as int, m));
    lemma_find_from_props(s, m, 0);
}

/// Filtering a prefix one element longer.
pub proof fn lemma_filter_take_step<A>(s: Seq<A>, i: int, p: spec_fn(A) -> bool)
    requires
        0 <= i < s.len(),
    ensures
        s.take(i + 1).filter(p) == (if p(s[i]) {
            s.take(i).filter(p).push(s[i])
        } else {
            s.take(i).filter(p)
        }),
{
    reveal(Seq::filter);
    assert(s.take(i + 1).drop_last() =~= s.take(i));
}

pub proof fn lemma_seq_lt_total(a: Seq<char>, b: Seq<char>)
    ensures
        a == b || seq_lt(a, b) || seq_lt(b, a),
    decreases a.len(),
{
    if a.len() > 0 && b.len() > 0 && a[0] == b[0] {
        lemma_seq_lt_total(a.drop_first(), b.drop_first());
        if a.drop_first() == b.drop_first() {
            assert(a =~= seq![a[0]] + a.drop_first());
            assert(b =~= seq![b[0]] + b.drop_first());
        }
    } else if a.len() == 0 && b.len() == 0 {
        assert(a =~= b);
    }
}

/// A decimal rendering is never empty.
pub proof fn lemma_dec_nonempty(n: nat)
    ensures
        dec(n).len() >= 1,
    decreases n,
{
    if n >= 10 {
        lemma_dec_nonempty(n / 10);
    }
}

/// Different numbers have different decimal renderings.
pub proof fn lemma_dec_injective(a: nat, b: nat)
    requires
        dec(a) == dec(b),
    ensures
        a == b,
    decreases a + b,
{
    if a < 10 && b < 10 {
        assert(dec(a)[0] == digit_char(a));
        assert(dec(b)[0] == digit_char(b));
        assert(digit_char(a) as int == a + 0x30);
        assert(digit_char(b) as int == b + 0x30);
    } else if a < 10 {
        lemma_dec_nonempty(b / 10);
    } else if b < 10 {
        lemma_dec_nonempty(a / 10);
    } else {
        assert(dec(a).drop_last() =~= dec(a / 10));
        assert(dec(b).drop_last() =~= dec(b / 10));
        assert(dec(a).last() == digit_char(a % 10));
        assert(dec(b).last() == digit_char(b % 10));
        assert(digit_char(a % 10) as int == a % 10 + 0x30);
        assert(digit_char(b % 10) as int == b % 10 + 0x30);
        lemma_dec_injective(a / 10, b / 10);
    }
}
// ---------------------------------------------------------------------------
// Executable helpers
// ---------------------------------------------------------------------------

/// Collects the characters of `s` into a vector.
pub fn chars_of(s: &str) -> (r: Vec<char>)
    ensures
        r@ == s@,
{
    let mut r: Vec<char> = Vec::new();
    for c in it: s.chars()
        invariant
            r@ == it.seq().take(it.index() as int),
    {
        r.push(c);
    }
    r
}

/// `String::push`.
#[verifier::external_body]
fn string_push(s: &mut String, c: char)
    ensures
        final(s)@ == old(s)@.push(c),
{
    s.push(c);
}

/// Builds a `String` holding the characters of `v`.
pub fn string_of(v: &Vec<char>) -> (r: String)
    ensures
        r@ == v@,
{
    let mut r = String::new();
    for i in 0..v.len()
        invariant
            r@ == v@.take(i as int),
    {
        string_push(&mut r, v[i]);
        assert(v@.take(i + 1) =~= v@.take(i as int).push(v@[i as int]));
    }
    assert(v@.take(v.len() as int) =~= v@);
    r
}

/// Copies `s[lo..hi]` into a new vector.
pub fn slice_of(s: &Vec<char>, lo: usize, hi: usize) -> (r: Vec<char>)
    requires
        lo <= hi <= s.len(),
    ensures
        r@ == s@.subrange(lo as int, hi as int),
{
    let mut r: Vec<char> = Vec::new();
    let mut i: usize = lo;
    while i < hi
        invariant
            lo <= i <= hi <= s.len(),
            r@ == s@.subrange(lo as int, i as int),
        decreases hi - i,
    {
        r.push(s[i]);
        assert(s@.subrange(lo as int, i + 1) =~= s@.subrange(lo as int, i as int).push(s@[i as int]));
        i += 1;
    }
    r
}

/// Appends the characters of `b` to `a`.
pub fn extend(a: &mut Vec<char>, b: &Vec<char>)
    ensures
        final(a)@ == old(a)@ + b@,
{
    for i in 0..b.len()
        invariant
            a@ == old(a)@ + b@.take(i as int),
    {
        a.push(b[i]);
        assert(b@.take(i + 1) =~= b@.take(i as int).push(b@[i as int]));
    }
    assert(b@.take(b.len() as int) =~= b@);
}

/// `a` followed by `b`.
pub fn concat(a: &Vec<char>, b: &Vec<char>) -> (r: Vec<char>)
    ensures
        r@ == a@ + b@,
{
    let mut r = slice_of(a, 0, a.len());
    assert(a@.subrange(0, a.len() as int) =~= a@);
    extend(&mut r, b);
    r
}

/// Character equality of two vectors.
pub fn eq(a: &Vec<char>, b: &Vec<char>) -> (r: bool)
    ensures
        r == (a@ == b@),
{
    if a.len() != b.len() {
        return false;
    }
    for i in 0..a.len()
        invariant
            a.len() == b.len(),
            forall|k: int| 0 <= k < i ==> a@[k] == b@[k],
    {
        if a[i] != b[i] {
            return false;
        }
    }
    assert(a@ =~= b@);
    true
}

/// Character equality of two strings.
pub fn str_eq(a: &str, b: &str) -> (r: bool)
    ensures
        r == (a@ == b@),
{
    eq(&chars_of(a), &chars_of(b))
}

/// `p` occurs in `s` at index `i`.
pub fn matches_at_exec(s: &Vec<char>, i: usize, p: &Vec<char>) -> (r: bool)
    ensures
        r == matches_at(s@, i as int, p@),
{
    if p.len() > s.len() || i > s.len() - p.len() {
        return false;
    }
    for k in 0..p.len()
        invariant
            i + p.len() <= s.len(),
            forall|j: int| 0 <= j < k ==> s@[i + j] == p@[j],
    {
        if s[i + k] != p[k] {
            assert(s@.subrange(i as int, i + p.len())[k as int] != p@[k as int]);
            return false;
        }
    }
    assert(s@.subrange(i as int, i + p.len()) =~= p@);
    true
}

/// First index at or after `from` where `p` occurs in `s`.
pub fn find_from_exec(s: &Vec<char>, p: &Vec<char>, from: usize) -> (r: Option<usize>)
    ensures
        match find_from(s@, p@, from as int) {
            Some(k) => r matches Some(x) && x == k,
            None => r is None,
        },
{
    if p.len() > s.len() {
        return None;
    }
    let last: usize = s.len() - p.len();
    if from > last {
        return None;
    }
    let mut i: usize = from;
    loop
        invariant
            from <= i <= last,
            last == s.len() - p.len(),
            find_from(s@, p@, from as int) == find_from(s@, p@, i as int),
        decreases last - i,
    {
        if matches_at_exec(s, i, p) {
            return Some(i);
        }
        if i == last {
            assert(find_from(s@, p@, i + 1) is None);
            return None;
        }
        i += 1;
    }
}

/// First index where `p` occurs in `s`.
pub fn find_exec(s: &Vec<char>, p: &Vec<char>) -> (r: Option<usize>)
    ensures
        match find(s@, p@) {
            Some(k) => r matches Some(x) && x == k,
            None => r is None,
        },
{
    find_from_exec(s, p, 0)
}

/// `p` occurs in `s`.
pub fn contains_exec(s: &Vec<char>, p: &Vec<char>) -> (r: bool)
    ensures
        r == contains(s@, p@),
{
    find_exec(s, p).is_some()
}

/// `p` occurs in `s` (the pattern given as a string).
pub fn contains_str(s: &Vec<char>, p: &str) -> (r: bool)
    ensures
        r == contains(s@, p@),
{
    let pv = chars_of(p);
    contains_exec(s, &pv)
}

/// `s` begins with `p`.
pub fn starts_with_exec(s: &Vec<char>, p: &Vec<char>) -> (r: bool)
    ensures
        r == starts_with(s@, p@),
{
    let r = matches_at_exec(s, 0, p);
    proof {
        if p@.len() <= s@.len() {
            assert(s@.subrange(0, p@.len() as int) =~= s@.take(p@.len() as int));
        }
    }
    r
}

/// `s` ends with `p`.
pub fn ends_with_exec(s: &Vec<char>, p: &Vec<char>) -> (r: bool)
    ensures
        r == ends_with(s@, p@),
{
    if p.len() > s.len() {
        return false;
    }
    let r = matches_at_exec(s, s.len() - p.len(), p);
    assert(s@.subrange(s.len() - p.len(), s.len() as int) =~= s@.skip(s.len() - p.len()));
    r
}

/// Last index of `c` in `s`.
pub fn rfind_exec(s: &Vec<char>, c: char) -> (r: Option<usize>)
    ensures
        match rfind(s@, c) {
            Some(k) => r matches Some(x) && x == k,
            None => r is None,
        },
{
    let mut i: usize = s.len();
    while i > 0
        invariant
            i <= s.len(),
            rfind(s@, c) == rfind_before(s@, c, i as int),
        decreases i,
    {
        if s[i - 1] == c {
            return Some(i - 1);
        }
        i -= 1;
    }
    None
}

/// First index of `c` in `s`.
pub fn find_char(s: &Vec<char>, c: char) -> (r: Option<usize>)
    ensures
        match find(s@, seq![c]) {
            Some(k) => r matches Some(x) && x == k,
            None => r is None,
        },
{
    let mut p: Vec<char> = Vec::new();
    p.push(c);
    assert(p@ =~= seq![c]);
    find_exec(s, &p)
}

/// `char::is_whitespace`.
pub fn is_whitespace(c: char) -> (r: bool)
    ensures
        r == is_ws(c),
{
    let v: u32 = c as u32;
    (0x9 <= v && v <= 0xd) || v == 0x20 || v == 0x85 || v == 0xa0 || v == 0x1680 || (0x2000 <= v
        && v <= 0x200a) || v == 0x2028 || v == 0x2029 || v == 0x202f || v == 0x205f || v == 0x3000
}

/// `char::is_control`.
pub fn is_control(c: char) -> (r: bool)
    ensures
        r == is_cc(c),
{
    let v: u32 = c as u32;
    v <= 0x1f || (0x7f <= v && v <= 0x9f)
}

/// `char::len_utf8`.
pub fn len_utf8(c: char) -> (r: usize)
    ensures
        r == utf8_width(c),
{
    let v: u32 = c as u32;
    if v < 0x80 {
        1
    } else if v < 0x800 {
        2
    } else if v < 0x10000 {
        3
    } else {
        4
    }
}

/// Number of leading whitespace characters of `s`.
pub fn lead_ws(s: &Vec<char>) -> (r: usize)
    ensures
        r == lead_len(s@, ws_pred()),
{
    let mut j: usize = 0;
    while j < s.len() && is_whitespace(s[j])
        invariant
            j <= s.len(),
            forall|k: int| 0 <= k < j ==> #[trigger] is_ws(s@[k]),
        decreases s.len() - j,
    {
        j += 1;
    }
    proof {
        lemma_lead_len_run(s@, ws_pred(), 0, j as int);
        assert(s@.skip(0) =~= s@);
    }
    j
}

/// Number of trailing whitespace characters of `s`.
pub fn trail_ws(s: &Vec<char>) -> (r: usize)
    ensures
        r == trail_len(s@, ws_pred()),
{
    let mut j: usize = s.len();
    while j > 0 && is_whitespace(s[j - 1])
        invariant
            j <= s.len(),
            forall|k: int| j <= k < s.len() ==> #[trigger] is_ws(s@[k]),
        decreases j,
    {
        j -= 1;
    }
    proof {
        lemma_trail_len_run(s@, ws_pred(), j as int, s.len() as int);
        assert(s@.take(s.len() as int) =~= s@);
    }
    s.len() - j
}

/// `str::trim`.
pub fn trim_exec(s: &Vec<char>) -> (r: Vec<char>)
    ensures
        r@ == trim(s@),
{
    let a: usize = lead_ws(s);
    proof {
        lemma_lead_len_bound(s@, ws_pred());
    }
    let t = slice_of(s, a, s.len());
    assert(t@ =~= trim_start(s@));
    let b: usize = trail_ws(&t);
    proof {
        lemma_trail_bound(t@, ws_pred());
    }
    slice_of(&t, 0, t.len() - b)
}

pub proof fn lemma_trail_bound(s: Seq<char>, f: spec_fn(char) -> bool)
    ensures
        trail_len(s, f) <= s.len(),
    decreases s.len(),
{
    if s.len() > 0 && f(s.last()) {
        lemma_trail_bound(s.drop_last(), f);
    }
}

pub fn digit_char_exec(d: u32) -> (c: char)
    requires
        d < 10,
    ensures
        c == digit_char(d as nat),
{
    let b: u8 = (d + 0x30) as u8;
    b as char
}

/// Decimal rendering of `n`.
pub fn dec_exec(n: u64) -> (r: Vec<char>)
    ensures
        r@ == dec(n as nat),
    decreases n,
{
    if n < 10 {
        let mut r: Vec<char> = Vec::new();
        r.push(digit_char_exec(n as u32));
        r
    } else {
        let mut r = dec_exec(n / 10);
        r.push(digit_char_exec((n % 10) as u32));
        r
    }
}


/// Lexicographic `a < b`.
pub fn seq_less(a: &Vec<char>, b: &Vec<char>) -> (r: bool)
    ensures
        r == seq_lt(a@, b@),
{
    let mut i: usize = 0;
    assert(a@.skip(0) =~= a@);
    assert(b@.skip(0) =~= b@);
    while i < a.len() && i < b.len()
        invariant
            i <= a.len(),
            i <= b.len(),
            forall|k: int| 0 <= k < i ==> a@[k] == b@[k],
            seq_lt(a@, b@) == seq_lt(a@.skip(i as int), b@.skip(i as int)),
        decreases a.len() - i,
    {
        if a[i] != b[i] {
            assert(a@.skip(i as int)[0] == a@[i as int]);
            assert(b@.skip(i as int)[0] == b@[i as int]);
            return a[i] < b[i];
        }
        assert(a@.skip(i as int).drop_first() =~= a@.skip(i + 1));
        assert(b@.skip(i as int).drop_first() =~= b@.skip(i + 1));
        i += 1;
    }
    i < b.len()
}

/// `str::split_whitespace`.
pub fn split_ws_exec(s: &Vec<char>) -> (r: Vec<Vec<char>>)
    ensures
        r@.len() == words(s@).len(),
        forall|i: int| 0 <= i < r@.len() ==> #[trigger] r@[i]@ == words(s@)[i],
{
    let mut r: Vec<Vec<char>> = Vec::new();
    let mut pos: usize = 0;
    let ghost mut acc: Seq<Seq<char>> = seq![];
    assert(s@.skip(0) =~= s@);
    loop
        invariant
            pos <= s.len(),
            acc.len() == r@.len(),
            forall|i: int| 0 <= i < r@.len() ==> #[trigger] r@[i]@ == acc[i],
            acc + words(s@.skip(pos as int)) == words(s@),
        decreases s.len() - pos,
    {
        let mut a: usize = pos;
        while a < s.len() && is_whitespace(s[a])
            invariant
                pos <= a <= s.len(),
                forall|k: int| pos <= k < a ==> #[trigger] ws_pred()(s@[k]),
            decreases s.len() - a,
        {
            a += 1;
        }
        proof {
            lemma_lead_len_run(s@, ws_pred(), pos as int, a as int);
            assert(s@.skip(pos as int).skip(a - pos) =~= s@.skip(a as int));
        }
        if a == s.len() {
            assert(trim_start(s@.skip(pos as int)).len() == 0);
            assert(acc + words(s@.skip(pos as int)) =~= acc);
            assert(acc =~= words(s@));
            return r;
        }
        let mut b: usize = a;
        while b < s.len() && !is_whitespace(s[b])
            invariant
                a <= b <= s.len(),
                forall|k: int| a <= k < b ==> #[trigger] non_ws_pred()(s@[k]),
            decreases s.len() - b,
        {
            b += 1;
        }
        proof {
            lemma_lead_len_run(s@, non_ws_pred(), a as int, b as int);
            assert(!is_ws(s@[a as int]));
            assert(b > a);
            let t = trim_start(s@.skip(pos as int));
            assert(t =~= s@.skip(a as int));
            assert(t.take(b - a) =~= s@.subrange(a as int, b as int));
            assert(t.skip(b - a) =~= s@.skip(b as int));
        }
        let w = slice_of(s, a, b);
        r.push(w);
        proof {
            let t = trim_start(s@.skip(pos as int));
            assert(words(s@.skip(pos as int)) == seq![t.take(b - a)] + words(t.skip(b - a)));
            acc = acc.push(s@.subrange(a as int, b as int));
            assert(acc + words(s@.skip(b as int)) =~= (acc.drop_last() + words(
                s@.skip(pos as int),
            )));
        }
        pos = b;
    }
}

/// The parts joined by `sep`.
pub fn join_exec(parts: &Vec<Vec<char>>, sep: &Vec<char>) -> (r: Vec<char>)
    ensures
        r@ == join(parts@.map_values(|p: Vec<char>| p@), sep@),
{
    let ghost pv = parts@.map_values(|p: Vec<char>| p@);
    let mut r: Vec<char> = Vec::new();
    for i in 0..parts.len()
        invariant
            pv == parts@.map_values(|p: Vec<char>| p@),
            r@ == join(pv.take(i as int), sep@),
    {
        if i > 0 {
            extend(&mut r, sep);
        }
        extend(&mut r, &parts[i]);
        proof {
            assert(pv.take(i + 1).drop_last() =~= pv.take(i as int));
            if i == 0 {
                assert(pv.take(1).len() == 1);
            }
        }
    }
    assert(pv.take(parts.len() as int) =~= pv);
    r
}

/// `str::split` with a char.
pub fn split_char_exec(s: &Vec<char>, c: char) -> (r: Vec<Vec<char>>)
    ensures
        r@.len() == split_char(s@, c).len(),
        forall|i: int| 0 <= i < r@.len() ==> #[trigger] r@[i]@ == split_char(s@, c)[i],
{
    let mut r: Vec<Vec<char>> = Vec::new();
    let mut pos: usize = 0;
    let ghost mut acc: Seq<Seq<char>> = seq![];
    assert(s@.skip(0) =~= s@);
    loop
        invariant
            pos <= s.len(),
            acc.len() == r@.len(),
            forall|i: int| 0 <= i < r@.len() ==> #[trigger] r@[i]@ == acc[i],
            acc + split_char(s@.skip(pos as int), c) == split_char(s@, c),
        decreases s.len() - pos,
    {
        let rest = slice_of(s, pos, s.len());
        assert(rest@ =~= s@.skip(pos as int));
        match find_char(&rest, c) {
            None => {
                r.push(rest);
                proof {
                    acc = acc.push(s@.skip(pos as int));
                    assert(acc =~= split_char(s@, c));
                }
                return r;
            },
            Some(i) => {
                proof {
                    lemma_find_from_props(rest@, seq![c], 0);
                }
                let piece = slice_of(&rest, 0, i);
                r.push(piece);
                proof {
                    assert(rest@.skip(i + 1) =~= s@.skip(pos + i + 1));
                    acc = acc.push(rest@.take(i as int));
                    assert(acc + split_char(s@.skip(pos + i + 1), c) =~= acc.drop_last()
                        + split_char(s@.skip(pos as int), c));
                }
                pos = pos + i + 1;
            },
        }
    }
}

/// `str::replace`.
pub fn replace_exec(s: &Vec<char>, p: &Vec<char>, rep: &Vec<char>) -> (r: Vec<char>)
    requires
        p.len() > 0,
    ensures
        r@ == replace_all(s@, p@, rep@),
{
    let mut r: Vec<char> = Vec::new();
    let mut pos: usize = 0;
    assert(s@.skip(0) =~= s@);
    loop
        invariant
            pos <= s.len(),
            p.len() > 0,
            r@ + replace_all(s@.skip(pos as int), p@, rep@) == replace_all(s@, p@, rep@),
        decreases s.len() - pos,
    {
        let rest = slice_of(s, pos, s.len());
        assert(rest@ =~= s@.skip(pos as int));
        match find_exec(&rest, p) {
            None => {
                extend(&mut r, &rest);
                return r;
            },
            Some(i) => {
                proof {
                    lemma_find_from_props(rest@, p@, 0);
                }
                let head = slice_of(&rest, 0, i);
                let ghost old_r = r@;
                extend(&mut r, &head);
                extend(&mut r, rep);
                proof {
                    assert(rest@.skip(i + p.len()) =~= s@.skip(pos + i + p.len()));
                    assert(r@ + replace_all(s@.skip(pos + i + p.len()), p@, rep@) =~= old_r
                        + replace_all(rest@, p@, rep@));
                }
                pos = pos + i + p.len();
            },
        }
    }
}

/// `byte_len(s) <= limit`, i.e. `str::len() <= limit`.
pub fn byte_len_at_most(s: &Vec<char>, limit: usize) -> (r: bool)
    ensures
        r == (byte_len(s@) <= limit),
{
    let mut total: usize = 0;
    for i in 0..s.len()
        invariant
            total == byte_len(s@.take(i as int)),
            total <= limit,
    {
        assert(s@.take(i + 1).drop_last() =~= s@.take(i as int));
        let w = len_utf8(s[i]);
        if w > limit - total {
            proof {
                assert(s@ =~= s@.take(i + 1) + s@.skip(i + 1));
                lemma_byte_len_concat(s@.take(i + 1), s@.skip(i + 1));
            }
            return false;
        }
        total = total + w;
    }
    assert(s@.take(s.len() as int) =~= s@);
    true
}

/// Number of trailing characters of `s` equal to `c` or `d`.
pub fn trail_count2(s: &Vec<char>, c: char, d: char) -> (r: usize)
    ensures
        r == trail_len(s@, |x: char| x == c || x == d),
        r <= s.len(),
{
    let ghost f = |x: char| x == c || x == d;
    let mut j: usize = s.len();
    while j > 0 && (s[j - 1] == c || s[j - 1] == d)
        invariant
            j <= s.len(),
            f == (|x: char| x == c || x == d),
            forall|k: int| j <= k < s.len() ==> #[trigger] f(s@[k]),
        decreases j,
    {
        assert(f(s@[j - 1]));
        j -= 1;
    }
    proof {
        lemma_trail_len_run(s@, f, j as int, s.len() as int);
        assert(s@.take(s.len() as int) =~= s@);
    }
    s.len() - j
}

/// `str::lines`.
pub fn lines_exec(s: &Vec<char>) -> (r: Vec<Vec<char>>)
    ensures
        r@.len() == lines(s@).len(),
        forall|i: int| 0 <= i < r@.len() ==> #[trigger] r@[i]@ == lines(s@)[i],
{
    let mut r: Vec<Vec<char>> = Vec::new();
    let mut pos: usize = 0;
    let ghost mut acc: Seq<Seq<char>> = seq![];
    assert(s@.skip(0) =~= s@);
    loop
        invariant
            pos <= s.len(),
            acc.len() == r@.len(),
            forall|i: int| 0 <= i < r@.len() ==> #[trigger] r@[i]@ == acc[i],
            acc + lines(s@.skip(pos as int)) == lines(s@),
        decreases s.len() - pos,
    {
        let n = s.len();
        let rest = slice_of(s, pos, n);
        assert(rest@ =~= s@.skip(pos as int));
        if rest.len() == 0 {
            assert(acc + lines(rest@) =~= acc);
            return r;
        }
        match find_char(&rest, '\n') {
            None => {
                r.push(rest);
                proof {
                    acc = acc.push(s@.skip(pos as int));
                    assert(acc =~= lines(s@));
                }
                return r;
            },
            Some(i) => {
                proof {
                    lemma_find_from_props(rest@, seq!['\n'], 0);
                }
                let piece = if i > 0 && rest[i - 1] == '\r' {
                    slice_of(&rest, 0, i - 1)
                } else {
                    slice_of(&rest, 0, i)
                };
                let ghost pv = piece@;
                r.push(piece);
                proof {
                    assert(rest@.skip(i + 1) =~= s@.skip(pos + i + 1));
                    acc = acc.push(pv);
                    assert(acc + lines(s@.skip(pos + i + 1)) =~= acc.drop_last() + lines(
                        s@.skip(pos as int),
                    ));
                }
                pos = pos + i + 1;
            },
        }
    }
}

/// `Path::join` on Unix.
pub fn join_path_exec(base: &str, seg: &str) -> (r: String)
    ensures
        r@ == join_path(base@, seg@),
{
    let b = chars_of(base);
    let s = chars_of(seg);
    let v = if s.len() > 0 && s[0] == '/' {
        s
    } else if b.len() == 0 || b[b.len() - 1] == '/' {
        concat(&b, &s)
    } else {
        let mut v = b;
        v.push('/');
        extend(&mut v, &s);
        v
    };
    string_of(&v)
}
} // verus!
