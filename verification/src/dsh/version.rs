//! dsh versions on disk: the version directories, the `current` and
//! `known-good` pointers, switching, promotion, rollback and pruning.
//!
//! The directory is modelled by [`DshDir`]: its path, the names of the
//! directories it holds, and the two pointers.
use vstd::prelude::*;

use crate::error::{Fault, LauncherError};
use crate::state::{installed_view, opt_str, AppState, DshState, InstalledDsh};
use crate::text::{
    chars_of, eq, join_path, join_path_exec, lemma_filter_take_step, lemma_seq_lt_total, lemma_seq_lt_trans, seq_less, seq_lt,
    str_eq,
};

verus! {

broadcast use vstd::string::group_string_axioms;

pub const CURRENT_POINTER_NAME: &'static str = "current";

pub const KNOWN_GOOD_POINTER_NAME: &'static str = "known-good";

/// The dsh directory: the directories it holds and its two pointers.
pub struct DshDir {
    path: String,
    entries: Vec<String>,
    current: Option<String>,
    known_good: Option<String>,
}

/// A dsh directory as values.
pub ghost struct DshDirView {
    pub path: Seq<char>,
    pub entries: Seq<Seq<char>>,
    pub current: Option<Seq<char>>,
    pub known_good: Option<Seq<char>>,
}

/// The names a list of strings holds.
pub open spec fn names(v: Seq<String>) -> Seq<Seq<char>> {
    v.map_values(|e: String| e@)
}

pub open spec fn unique(s: Seq<Seq<char>>) -> bool {
    forall|i: int, j: int| 0 <= i < j < s.len() ==> s[i] != s[j]
}

impl View for DshDir {
    type V = DshDirView;

    closed spec fn view(&self) -> DshDirView {
        DshDirView {
            path: self.path@,
            entries: names(self.entries@),
            current: opt_str(self.current),
            known_good: opt_str(self.known_good),
        }
    }
}

pub open spec fn with_current(d: DshDirView, v: Seq<char>) -> DshDirView {
    DshDirView { current: Some(v), ..d }
}

pub open spec fn with_known_good(d: DshDirView, v: Seq<char>) -> DshDirView {
    DshDirView { known_good: Some(v), ..d }
}

pub open spec fn with_entry(d: DshDirView, v: Seq<char>) -> DshDirView {
    if d.entries.contains(v) {
        d
    } else {
        DshDirView { entries: d.entries.push(v), ..d }
    }
}

impl DshDir {
    /// The directory's names hold each name once.
    #[verifier::type_invariant]
    closed spec fn entries_unique(self) -> bool {
        unique(names(self.entries@))
    }

    /// An empty dsh directory at `path`.
    pub fn new(path: &str) -> (r: Self)
        ensures
            r@ == (DshDirView {
                path: path@,
                entries: Seq::empty(),
                current: None,
                known_good: None,
            }),
    {
        let r = DshDir { path: String::from_str(path), entries: Vec::new(), current: None, known_good: None };
        assert(r@.entries =~= Seq::<Seq<char>>::empty());
        r
    }

    /// The directory's path.
    pub fn path(&self) -> (r: &str)
        ensures
            r@ == self@.path,
    {
        self.path.as_str()
    }

    /// The names of the directories it holds, in the order they were found.
    pub fn entries(&self) -> (r: &Vec<String>)
        ensures
            names(r@) == self@.entries,
    {
        &self.entries
    }

    /// The directory holds a directory named `name`.
    pub fn has_entry(&self, name: &str) -> (r: bool)
        ensures
            r == self@.entries.contains(name@),
    {
        let ghost ev = self@.entries;
        for i in 0..self.entries.len()
            invariant
                ev == names(self.entries@),
                forall|k: int| 0 <= k < i ==> ev[k] != name@,
        {
            if str_eq(self.entries[i].as_str(), name) {
                assert(ev[i as int] == name@);
                return true;
            }
        }
        assert(!ev.contains(name@)) by {
            if ev.contains(name@) {
                let k = choose|k: int| 0 <= k < ev.len() && ev[k] == name@;
            }
        }
        false
    }

    /// Creates the directory `name` if it is not there.
    pub fn create_dir(&mut self, name: &str)
        ensures
            final(self)@ == with_entry(old(self)@, name@),
    {
        if self.has_entry(name) {
            return;
        }
        proof {
            use_type_invariant(&*self);
        }
        let ghost before = self@.entries;
        let mut entries: Vec<String> = Vec::new();
        std::mem::swap(&mut entries, &mut self.entries);
        assert(names(entries@) == before);
        entries.push(String::from_str(name));
        assert(names(entries@) =~= before.push(name@));
        proof {
            assert forall|i: int, j: int|
                0 <= i < j < before.push(name@).len() implies before.push(name@)[i]
                != before.push(name@)[j] by {
                if j == before.len() {
                    assert(before.contains(before[i]));
                }
            }
        }
        self.entries = entries;
    }

    /// Sets the current pointer, whether or not its target exists.
    fn set_current(&mut self, version: &str)
        ensures
            final(self)@ == with_current(old(self)@, version@),
    {
        proof {
            use_type_invariant(&*self);
        }
        self.current = Some(String::from_str(version));
    }

    fn set_known_good(&mut self, version: &str)
        ensures
            final(self)@ == with_known_good(old(self)@, version@),
    {
        proof {
            use_type_invariant(&*self);
        }
        self.known_good = Some(String::from_str(version));
    }
}

/// `name` is the name of a version pointer.
pub open spec fn is_pointer_spec(name: Seq<char>) -> bool {
    name == "current"@ || name == "known-good"@ || name == "current.json"@ || name
        == "known-good.json"@
}

/// `name` is the name of a version pointer, not of a version.
pub fn is_pointer_name(name: &str) -> (r: bool)
    ensures
        r == is_pointer_spec(name@),
{
    let n = chars_of(name);
    eq(&n, &chars_of("current")) || eq(&n, &chars_of("known-good")) || eq(
        &n,
        &chars_of("current.json"),
    ) || eq(&n, &chars_of("known-good.json"))
}

/// The version the current pointer names.
pub fn read_current_pointer(dir: &DshDir) -> (r: Option<String>)
    ensures
        opt_str(r) == dir@.current,
{
    match &dir.current {
        Some(v) => Some(v.clone()),
        None => None,
    }
}

/// The version the known-good pointer names.
pub fn read_known_good_pointer(dir: &DshDir) -> (r: Option<String>)
    ensures
        opt_str(r) == dir@.known_good,
{
    match &dir.known_good {
        Some(v) => Some(v.clone()),
        None => None,
    }
}

/// Points `current` at `version` (replacing its previous target).
pub fn write_current_pointer(dir: &mut DshDir, version: &str)
    ensures
        final(dir)@ == with_current(old(dir)@, version@),
{
    dir.set_current(version);
}

/// Points `known-good` at `version` (replacing its previous target).
pub fn write_known_good_pointer(dir: &mut DshDir, version: &str)
    ensures
        final(dir)@ == with_known_good(old(dir)@, version@),
{
    dir.set_known_good(version);
}

/// The directory holds a directory for `version`.
pub fn is_version_installed(dir: &DshDir, version: &str) -> (r: bool)
    ensures
        r == dir@.entries.contains(version@),
{
    dir.has_entry(version)
}

/// Why a version directory is missing, by operation.
pub open spec fn missing_dir_fault(d: DshDirView, v: Seq<char>, op: int) -> Fault {
    Fault::DshVersion(
        (if op == 0 {
            "cannot switch: version dir not found: "@
        } else if op == 1 {
            "cannot promote: version dir not found: "@
        } else {
            "cannot rollback: known_good dir not found: "@
        }) + join_path(d.path, v),
    )
}

fn ensure_version_dir(dir: &DshDir, version: &str, op: u8) -> (r: Result<(), LauncherError>)
    ensures
        dir@.entries.contains(version@) ==> r is Ok,
        !dir@.entries.contains(version@) ==> (r matches Err(e) && e@ == missing_dir_fault(
            dir@,
            version@,
            op as int,
        )),
{
    if dir.has_entry(version) {
        return Ok(());
    }
    let prefix = if op == 0 {
        "cannot switch: version dir not found: "
    } else if op == 1 {
        "cannot promote: version dir not found: "
    } else {
        "cannot rollback: known_good dir not found: "
    };
    let path = join_path_exec(dir.path.as_str(), version);
    let mut m = String::from_str(prefix);
    m.append(path.as_str());
    Err(LauncherError::DshVersion(m))
}

/// Switching `d` to `v`: the version must be installed.
pub open spec fn switch_spec(d: DshDirView, v: Seq<char>) -> Result<DshDirView, Fault> {
    if d.entries.contains(v) {
        Ok(with_current(d, v))
    } else {
        Err(missing_dir_fault(d, v, 0))
    }
}

/// Points `current` at an installed version.
pub fn switch(dir: &mut DshDir, version: &str) -> (r: Result<(), LauncherError>)
    ensures
        match switch_spec(old(dir)@, version@) {
            Ok(d) => r is Ok && final(dir)@ == d,
            Err(f) => r matches Err(e) && e@ == f && final(dir)@ == old(dir)@,
        },
{
    ensure_version_dir(dir, version, 0)?;
    write_current_pointer(dir, version);
    Ok(())
}

// ---------------------------------------------------------------------------
// Inventory
// ---------------------------------------------------------------------------

/// Every name comes strictly before the next one, so none occurs twice.
pub open spec fn sorted_strict(s: Seq<Seq<char>>) -> bool {
    forall|i: int, j: int| 0 <= i < j < s.len() ==> seq_lt(s[i], s[j])
}

/// A directory name that names a version (not a pointer).
pub open spec fn is_version_entry(name: Seq<char>) -> bool {
    !is_pointer_spec(name)
}

/// Where `name` goes in the sorted `r`: after every name not above it.
fn insert_position(r: &Vec<String>, name: &str) -> (j: usize)
    ensures
        j <= r.len(),
        forall|k: int| 0 <= k < j ==> !seq_lt(name@, #[trigger] r@[k]@),
        j < r.len() ==> seq_lt(name@, r@[j as int]@),
{
    let n = chars_of(name);
    let mut j: usize = 0;
    while j < r.len()
        invariant
            j <= r.len(),
            n@ == name@,
            forall|k: int| 0 <= k < j ==> !seq_lt(name@, #[trigger] r@[k]@),
        decreases r.len() - j,
    {
        if seq_less(&n, &chars_of(r[j].as_str())) {
            return j;
        }
        j += 1;
    }
    j
}

/// The installed versions: the directory's names without the pointers,
/// sorted.
pub fn list_installed_versions(dir: &DshDir) -> (r: Vec<String>)
    ensures
        sorted_strict(names(r@)),
        forall|v: Seq<char>|
            #![trigger names(r@).contains(v)]
            #![trigger dir@.entries.contains(v)]
            names(r@).contains(v) <==> (dir@.entries.contains(v) && is_version_entry(v)),
{
    proof {
        use_type_invariant(dir);
    }
    let ghost ev = dir@.entries;
    let mut r: Vec<String> = Vec::new();
    assert(names(r@) =~= Seq::<Seq<char>>::empty());
    for i in 0..dir.entries.len()
        invariant
            ev == names(dir.entries@),
            unique(ev),
            sorted_strict(names(r@)),
            forall|v: Seq<char>|
                #![trigger names(r@).contains(v)]
                #![trigger ev.take(i as int).contains(v)]
                names(r@).contains(v) <==> (ev.take(i as int).contains(v) && is_version_entry(v)),
    {
        let ghost rv = names(r@);
        let ghost e = ev[i as int];
        assert(e == dir.entries@[i as int]@);
        assert(ev.take(i + 1) =~= ev.take(i as int).push(e));
        if !is_pointer_name(dir.entries[i].as_str()) {
            let j = insert_position(&r, dir.entries[i].as_str());
            assert(!rv.contains(e)) by {
                if rv.contains(e) {
                    assert(ev.take(i as int).contains(e));
                    let k = choose|k: int|
                        0 <= k < ev.take(i as int).len() && ev.take(i as int)[k] == e;
                    assert(ev[k] == ev[i as int]);
                }
            }
            r.insert(j, dir.entries[i].clone());
            let ghost nv = names(r@);
            assert(nv =~= rv.insert(j as int, e));
            assert forall|a: int, b: int| 0 <= a < b < nv.len() implies seq_lt(nv[a], nv[b]) by {
                if b < j {
                } else if a < j && b == j {
                    assert(!seq_lt(e, rv[a]));
                    assert(rv.contains(rv[a]));
                    lemma_seq_lt_total(rv[a], e);
                } else if a < j && b > j {
                    assert(!seq_lt(e, rv[a]));
                    assert(rv.contains(rv[a]));
                    lemma_seq_lt_total(rv[a], e);
                    assert(seq_lt(e, rv[j as int]));
                    if j < b - 1 {
                        assert(seq_lt(rv[j as int], rv[b - 1]));
                        lemma_seq_lt_trans(e, rv[j as int], rv[b - 1]);
                    }
                    lemma_seq_lt_trans(rv[a], e, rv[b - 1]);
                } else if a == j {
                    assert(seq_lt(e, rv[j as int]));
                    if j < b - 1 {
                        assert(seq_lt(rv[j as int], rv[b - 1]));
                        lemma_seq_lt_trans(e, rv[j as int], rv[b - 1]);
                    }
                } else {
                    assert(nv[a] == rv[a - 1]);
                    assert(nv[b] == rv[b - 1]);
                }
            }
            let ghost t1 = ev.take(i + 1);
            assert forall|v: Seq<char>|
                #![trigger nv.contains(v)]
                #![trigger t1.contains(v)]
                nv.contains(v) <==> (t1.contains(v) && is_version_entry(v)) by {
                if nv.contains(v) {
                    let k = choose|k: int| 0 <= k < nv.len() && nv[k] == v;
                    if k == j {
                        assert(ev.take(i + 1)[i as int] == v);
                    } else {
                        let kk = if k < j { k } else { k - 1 };
                        assert(rv[kk] == v);
                        assert(rv.contains(v));
                        assert(ev.take(i as int).contains(v));
                        let m = choose|m: int|
                            0 <= m < ev.take(i as int).len() && ev.take(i as int)[m] == v;
                        assert(ev.take(i + 1)[m] == v);
                    }
                }
                if ev.take(i + 1).contains(v) && is_version_entry(v) {
                    if v == e {
                        assert(nv[j as int] == v);
                    } else {
                        let t1 = ev.take(i + 1);
                        let m = choose|m: int| 0 <= m < t1.len() && t1[m] == v;
                        assert(m != i);
                        assert(ev.take(i as int)[m] == v);
                        assert(ev.take(i as int).contains(v));
                        assert(rv.contains(v));
                        let k = choose|k: int| 0 <= k < rv.len() && rv[k] == v;
                        if k < j {
                            assert(nv[k] == v);
                        } else {
                            assert(nv[k + 1] == v);
                        }
                    }
                }
            }
        } else {
            assert forall|v: Seq<char>|
                rv.contains(v) <==> (ev.take(i + 1).contains(v) && is_version_entry(v)) by {
                let t0 = ev.take(i as int);
                let t1 = ev.take(i + 1);
                if rv.contains(v) {
                    assert(t0.contains(v));
                    let m = choose|m: int| 0 <= m < t0.len() && t0[m] == v;
                    assert(t1[m] == v);
                }
                if t1.contains(v) && is_version_entry(v) {
                    let m = choose|m: int| 0 <= m < t1.len() && t1[m] == v;
                    assert(m != i);
                    assert(t0[m] == v);
                    assert(t0.contains(v));
                }
            }
        }
    }
    assert(ev.take(ev.len() as int) =~= ev);
    r
}

/// `v` is kept whatever the pruning: current, known-good or pending.
pub open spec fn is_protected(s: DshStateView, v: Seq<char>) -> bool {
    s.current == Some(v) || s.known_good == Some(v) || s.pending == Some(v)
}

/// `w` is a version that pruning may remove.
pub open spec fn prune_candidate(s: DshStateView, w: Seq<char>) -> bool {
    is_version_entry(w) && !is_protected(s, w)
}

pub open spec fn newer_than(s: DshStateView, v: Seq<char>) -> spec_fn(Seq<char>) -> bool {
    |w: Seq<char>| prune_candidate(s, w) && seq_lt(v, w)
}

/// How many candidates of the directory sort after `v`.
pub open spec fn newer_count(d: DshDirView, s: DshStateView, v: Seq<char>) -> nat {
    d.entries.filter(newer_than(s, v)).len()
}

/// `v` is pruned: a candidate with at least `keep_extra` newer candidates.
pub open spec fn is_pruned(d: DshDirView, s: DshStateView, keep_extra: nat, v: Seq<char>) -> bool {
    prune_candidate(s, v) && newer_count(d, s, v) >= keep_extra
}

pub open spec fn pruned_pred(d: DshDirView, s: DshStateView, keep_extra: nat) -> spec_fn(
    Seq<char>,
) -> bool {
    |v: Seq<char>| is_pruned(d, s, keep_extra, v)
}

pub open spec fn kept_pred(d: DshDirView, s: DshStateView, keep_extra: nat) -> spec_fn(
    Seq<char>,
) -> bool {
    |v: Seq<char>| !is_pruned(d, s, keep_extra, v)
}

/// The versions a pruning removes, in directory order.
pub open spec fn prune_spec(d: DshDirView, s: DshStateView, keep_extra: nat) -> Seq<Seq<char>> {
    d.entries.filter(pruned_pred(d, s, keep_extra))
}

/// The directory after a pruning.
pub open spec fn after_prune(d: DshDirView, s: DshStateView, keep_extra: nat) -> DshDirView {
    DshDirView { entries: d.entries.filter(kept_pred(d, s, keep_extra)), ..d }
}

/// `v` is current, known-good or pending in `state`.
fn is_protected_exec(state: &AppState, v: &str) -> (r: bool)
    ensures
        r == is_protected(dsh_view(state.dsh), v@),
{
    let c = match &state.dsh.current {
        Some(x) => str_eq(x.as_str(), v),
        None => false,
    };
    let k = match &state.dsh.known_good {
        Some(x) => str_eq(x.as_str(), v),
        None => false,
    };
    let p = match &state.dsh.pending {
        Some(x) => str_eq(x.as_str(), v),
        None => false,
    };
    c || k || p
}

fn newer_candidates(entries: &Vec<String>, state: &AppState, v: &str) -> (n: usize)
    ensures
        n == names(entries@).filter(newer_than(dsh_view(state.dsh), v@)).len(),
{
    let ghost ev = names(entries@);
    let ghost pred = newer_than(dsh_view(state.dsh), v@);
    let vc = chars_of(v);
    let mut n: usize = 0;
    for i in 0..entries.len()
        invariant
            ev == names(entries@),
            pred == newer_than(dsh_view(state.dsh), v@),
            vc@ == v@,
            n == ev.take(i as int).filter(pred).len(),
            n <= i,
    {
        let w = entries[i].as_str();
        assert(w@ == ev[i as int]);
        assert(ev.take(i + 1).drop_last() =~= ev.take(i as int));
        assert(ev.take(i + 1).last() == ev[i as int]);
        let newer = !is_pointer_name(w) && !is_protected_exec(state, w) && seq_less(
            &vc,
            &chars_of(w),
        );
        assert(newer == pred(ev[i as int]));
        if newer {
            n += 1;
        }
        proof {
            lemma_filter_take_step(ev, i as int, pred);
            ev.take(i as int).lemma_filter_len(pred);
        }
    }
    assert(ev.take(ev.len() as int) =~= ev);
    n
}

/// Removes the versions that are neither current, known-good nor pending and
/// are not among the `keep_extra` newest of the rest; returns their names in
/// directory order.
pub fn prune_old_versions(state: &AppState, dir: &mut DshDir, keep_extra: usize) -> (r: Vec<
    String,
>)
    ensures
        names(r@) == prune_spec(old(dir)@, dsh_view(state.dsh), keep_extra as nat),
        final(dir)@ == after_prune(old(dir)@, dsh_view(state.dsh), keep_extra as nat),
{
    proof {
        use_type_invariant(&*dir);
    }
    let ghost d0 = dir@;
    let ghost ev = dir@.entries;
    let ghost sv = dsh_view(state.dsh);
    let ghost pp = pruned_pred(d0, sv, keep_extra as nat);
    let ghost kp = kept_pred(d0, sv, keep_extra as nat);
    let mut kept: Vec<String> = Vec::new();
    let mut pruned: Vec<String> = Vec::new();
    assert(names(kept@) =~= Seq::<Seq<char>>::empty());
    assert(names(pruned@) =~= Seq::<Seq<char>>::empty());
    for i in 0..dir.entries.len()
        invariant
            d0 == dir@,
            ev == names(dir.entries@),
            sv == dsh_view(state.dsh),
            pp == pruned_pred(d0, sv, keep_extra as nat),
            kp == kept_pred(d0, sv, keep_extra as nat),
            unique(ev),
            names(kept@) == ev.take(i as int).filter(kp),
            names(pruned@) == ev.take(i as int).filter(pp),
            unique(names(kept@)),
            forall|v: Seq<char>|
                #[trigger] names(kept@).contains(v) ==> ev.take(i as int).contains(v),
    {
        let ghost e = ev[i as int];
        let ghost kv = names(kept@);
        assert(e == dir.entries@[i as int]@);
        assert(ev.take(i + 1).drop_last() =~= ev.take(i as int));
        assert(ev.take(i + 1).last() == e);
        let name = dir.entries[i].as_str();
        let candidate = !is_pointer_name(name) && !is_protected_exec(state, name);
        let remove = candidate && newer_candidates(&dir.entries, state, name) >= keep_extra;
        assert(remove == is_pruned(d0, sv, keep_extra as nat, e));
        assert(pp(e) == remove);
        assert(kp(e) == !remove);
        proof {
            lemma_filter_take_step(ev, i as int, pp);
            lemma_filter_take_step(ev, i as int, kp);
        }
        let ghost pv = names(pruned@);
        if remove {
            pruned.push(dir.entries[i].clone());
            assert(names(pruned@) =~= pv.push(e));
            assert(names(pruned@) =~= ev.take(i + 1).filter(pp));
            assert(names(kept@) =~= ev.take(i + 1).filter(kp));
        } else {
            assert(!kv.contains(e)) by {
                if kv.contains(e) {
                    assert(ev.take(i as int).contains(e));
                    let k = choose|k: int|
                        0 <= k < ev.take(i as int).len() && ev.take(i as int)[k] == e;
                    assert(ev[k] == ev[i as int]);
                }
            }
            kept.push(dir.entries[i].clone());
            assert(names(kept@) =~= kv.push(e));
            assert(names(kept@) =~= ev.take(i + 1).filter(kp));
            assert(names(pruned@) =~= ev.take(i + 1).filter(pp));
            assert forall|a: int, b: int|
                0 <= a < b < kv.push(e).len() implies kv.push(e)[a] != kv.push(e)[b] by {
                if b == kv.len() {
                    assert(kv.contains(kv[a]));
                }
            }
        }
        assert forall|v: Seq<char>|
            #[trigger] names(kept@).contains(v) implies ev.take(i + 1).contains(v) by {
            if v != e {
                assert(kv.contains(v));
                assert(ev.take(i as int).contains(v));
                let k = choose|k: int|
                    0 <= k < ev.take(i as int).len() && ev.take(i as int)[k] == v;
                assert(ev.take(i + 1)[k] == v);
            } else {
                assert(ev.take(i + 1)[i as int] == v);
            }
        }
    }
    assert(ev.take(ev.len() as int) =~= ev);
    dir.entries = kept;
    assert(dir@ == after_prune(d0, sv, keep_extra as nat));
    pruned
}

// ---------------------------------------------------------------------------
// State transitions
// ---------------------------------------------------------------------------

/// The dsh part of the state as values.
pub ghost struct DshStateView {
    pub current: Option<Seq<char>>,
    pub known_good: Option<Seq<char>>,
    pub pending: Option<Seq<char>>,
    pub installed: Seq<(Seq<char>, i128, Seq<char>)>,
}

pub open spec fn dsh_view(s: DshState) -> DshStateView {
    DshStateView {
        current: opt_str(s.current),
        known_good: opt_str(s.known_good),
        pending: opt_str(s.pending),
        installed: installed_view(s.installed),
    }
}

/// The first installed entry for version `v` from index `i` on.
pub open spec fn find_installed(
    inst: Seq<(Seq<char>, i128, Seq<char>)>,
    v: Seq<char>,
    i: int,
) -> Option<int>
    decreases inst.len() - i,
{
    if i < 0 || i >= inst.len() {
        None
    } else if inst[i].0 == v {
        Some(i)
    } else {
        find_installed(inst, v, i + 1)
    }
}

/// `inst` with the status of version `v` set (a new entry, installed at
/// `now`, when `v` is not listed).
pub open spec fn set_status_spec(
    inst: Seq<(Seq<char>, i128, Seq<char>)>,
    v: Seq<char>,
    status: Seq<char>,
    now: i128,
) -> Seq<(Seq<char>, i128, Seq<char>)> {
    match find_installed(inst, v, 0) {
        Some(i) => inst.update(i, (inst[i].0, inst[i].1, status)),
        None => inst.push((v, now, status)),
    }
}

/// Promotion of `v` to current: the previous current becomes known-good
/// (unless it is `v`), the pending upgrade is done, `v` is verified.
pub open spec fn promote_spec(s: DshStateView, d: DshDirView, v: Seq<char>, now: i128) -> Result<
    (DshStateView, DshDirView),
    Fault,
> {
    if !d.entries.contains(v) {
        Err(missing_dir_fault(d, v, 1))
    } else {
        let keeps_old = s.current is Some && s.current->0 != v;
        let d1 = if keeps_old {
            with_known_good(d, s.current->0)
        } else {
            d
        };
        Ok(
            (
                DshStateView {
                    current: Some(v),
                    known_good: if keeps_old {
                        s.current
                    } else {
                        None
                    },
                    pending: None,
                    installed: set_status_spec(s.installed, v, "verified"@, now),
                },
                with_current(d1, v),
            ),
        )
    }
}

/// Rollback to the known-good version: it becomes current and verified, the
/// failed current is marked broken, nothing is known-good or pending after.
pub open spec fn rollback_spec(s: DshStateView, d: DshDirView, now: i128) -> Result<
    (Seq<char>, DshStateView, DshDirView),
    Fault,
> {
    match s.known_good {
        None => Err(Fault::DshVersion("cannot rollback: no known_good version available"@)),
        Some(kg) => if !d.entries.contains(kg) {
            Err(missing_dir_fault(d, kg, 2))
        } else {
            let inst1 = match s.current {
                Some(failed) => set_status_spec(s.installed, failed, "broken"@, now),
                None => s.installed,
            };
            Ok(
                (
                    kg,
                    DshStateView {
                        current: Some(kg),
                        known_good: None,
                        pending: None,
                        installed: set_status_spec(inst1, kg, "verified"@, now),
                    },
                    with_current(d, kg),
                ),
            )
        },
    }
}

/// The other parts of the state are left as they were.
pub open spec fn same_except_dsh_core(a: AppState, b: AppState) -> bool {
    &&& a.node == b.node
    &&& a.node_mirror == b.node_mirror
    &&& a.bootstrap_plan == b.bootstrap_plan
    &&& a.crash_counter == b.crash_counter
    &&& a.last_crash_at == b.last_crash_at
    &&& a.dsh.registry == b.dsh.registry
    &&& a.dsh.last_notified == b.dsh.last_notified
    &&& a.dsh.last_check == b.dsh.last_check
    &&& a.dsh.check_interval_hours == b.dsh.check_interval_hours
    &&& a.dsh.pinned_range == b.dsh.pinned_range
    &&& a.dsh.ignored_versions == b.dsh.ignored_versions
}

fn set_installed_status(dsh: &mut DshState, version: &str, status: &str, now: i128)
    ensures
        dsh_view(*final(dsh)) == (DshStateView {
            installed: set_status_spec(installed_view(old(dsh).installed), version@, status@, now),
            ..dsh_view(*old(dsh))
        }),
        final(dsh).current == old(dsh).current,
        final(dsh).known_good == old(dsh).known_good,
        final(dsh).pending == old(dsh).pending,
        final(dsh).registry == old(dsh).registry,
        final(dsh).last_notified == old(dsh).last_notified,
        final(dsh).last_check == old(dsh).last_check,
        final(dsh).check_interval_hours == old(dsh).check_interval_hours,
        final(dsh).pinned_range == old(dsh).pinned_range,
        final(dsh).ignored_versions == old(dsh).ignored_versions,
{
    let ghost iv = installed_view(dsh.installed);
    let mut i: usize = 0;
    while i < dsh.installed.len()
        invariant
            i <= dsh.installed.len(),
            iv == installed_view(dsh.installed),
            dsh == old(dsh),
            find_installed(iv, version@, 0) == find_installed(iv, version@, i as int),
        decreases dsh.installed.len() - i,
    {
        if str_eq(dsh.installed[i].version.as_str(), version) {
            assert(iv[i as int].0 == version@);
            let item = InstalledDsh {
                version: dsh.installed[i].version.clone(),
                installed_at: dsh.installed[i].installed_at,
                status: String::from_str(status),
            };
            dsh.installed.set(i, item);
            assert(installed_view(dsh.installed) =~= iv.update(
                i as int,
                (iv[i as int].0, iv[i as int].1, status@),
            ));
            assert(dsh_view(*dsh) =~= (DshStateView {
                installed: set_status_spec(iv, version@, status@, now),
                ..dsh_view(*old(dsh))
            }));
            return;
        }
        i += 1;
    }
    dsh.installed.push(
        InstalledDsh {
            version: String::from_str(version),
            installed_at: now,
            status: String::from_str(status),
        },
    );
    assert(installed_view(dsh.installed) =~= iv.push((version@, now, status@)));
    assert(dsh_view(*dsh) =~= (DshStateView {
        installed: set_status_spec(iv, version@, status@, now),
        ..dsh_view(*old(dsh))
    }));
}

fn clone_opt(o: &Option<String>) -> (r: Option<String>)
    ensures
        r == *o,
{
    match o {
        Some(s) => Some(s.clone()),
        None => None,
    }
}

/// Promotes an installed version to current at time `now` (nanoseconds since
/// the Unix epoch); the previous current becomes known-good.
pub fn promote_to_current(
    state: &mut AppState,
    dir: &mut DshDir,
    version: &str,
    now: i128,
) -> (r: Result<(), LauncherError>)
    ensures
        same_except_dsh_core(*old(state), *final(state)),
        match promote_spec(dsh_view(old(state).dsh), old(dir)@, version@, now) {
            Err(f) => r matches Err(e) && e@ == f && *final(state) == *old(state) && final(dir)@
                == old(dir)@,
            Ok((s1, d1)) => r is Ok && dsh_view(final(state).dsh) == s1 && final(dir)@ == d1,
        },
{
    ensure_version_dir(dir, version, 1)?;
    let ghost s0 = dsh_view(state.dsh);
    let ghost d0 = dir@;
    let old_current = clone_opt(&state.dsh.current);
    let keeps_old = match &old_current {
        Some(old) => !str_eq(old.as_str(), version),
        None => false,
    };
    if keeps_old {
        match &old_current {
            Some(old) => write_known_good_pointer(dir, old.as_str()),
            None => {},
        }
    }
    write_current_pointer(dir, version);
    state.dsh.known_good = if keeps_old {
        old_current
    } else {
        None
    };
    state.dsh.current = Some(String::from_str(version));
    state.dsh.pending = None;
    set_installed_status(&mut state.dsh, version, "verified", now);
    proof {
        let keeps = s0.current is Some && s0.current->0 != version@;
        assert(keeps == keeps_old);
        let d1 = if keeps { with_known_good(d0, s0.current->0) } else { d0 };
        assert(dir@ == with_current(d1, version@));
        assert(dsh_view(state.dsh) == (DshStateView {
            current: Some(version@),
            known_good: if keeps { s0.current } else { None },
            pending: None,
            installed: set_status_spec(s0.installed, version@, "verified"@, now),
        }));
        assert(promote_spec(s0, d0, version@, now) == Ok::<(DshStateView, DshDirView), Fault>(
            (dsh_view(state.dsh), dir@),
        ));
    }
    Ok(())
}

/// Makes the known-good version current again at time `now` (nanoseconds since
/// the Unix epoch) after the current one failed; returns that version.
pub fn rollback_to_known_good(state: &mut AppState, dir: &mut DshDir, now: i128) -> (r: Result<
    String,
    LauncherError,
>)
    ensures
        same_except_dsh_core(*old(state), *final(state)),
        match rollback_spec(dsh_view(old(state).dsh), old(dir)@, now) {
            Err(f) => r matches Err(e) && e@ == f && *final(state) == *old(state) && final(dir)@
                == old(dir)@,
            Ok((kg, s1, d1)) => r matches Ok(k) && k@ == kg && dsh_view(final(state).dsh) == s1
                && final(dir)@ == d1,
        },
{
    let known_good = match &state.dsh.known_good {
        None => {
            return Err(
                LauncherError::DshVersion(
                    String::from_str("cannot rollback: no known_good version available"),
                ),
            );
        },
        Some(k) => k.clone(),
    };
    ensure_version_dir(dir, known_good.as_str(), 2)?;
    let ghost s0 = dsh_view(state.dsh);
    let ghost d0 = dir@;
    let failed_version = clone_opt(&state.dsh.current);
    write_current_pointer(dir, known_good.as_str());
    state.dsh.current = Some(known_good.clone());
    state.dsh.known_good = None;
    state.dsh.pending = None;
    match &failed_version {
        Some(failed) => set_installed_status(&mut state.dsh, failed.as_str(), "broken", now),
        None => {},
    }
    let ghost s1 = dsh_view(state.dsh);
    set_installed_status(&mut state.dsh, known_good.as_str(), "verified", now);
    proof {
        let inst1 = match s0.current {
            Some(failed) => set_status_spec(s0.installed, failed, "broken"@, now),
            None => s0.installed,
        };
        assert(s1.installed == inst1);
        assert(dsh_view(state.dsh) == (DshStateView {
            current: Some(known_good@),
            known_good: None,
            pending: None,
            installed: set_status_spec(inst1, known_good@, "verified"@, now),
        }));
        assert(rollback_spec(s0, d0, now) == Ok::<(Seq<char>, DshStateView, DshDirView), Fault>(
            (known_good@, dsh_view(state.dsh), dir@),
        ));
    }
    Ok(known_good)
}

/// Marks `version` as the pending upgrade.
pub fn set_pending(state: &mut AppState, version: &str)
    ensures
        opt_str(final(state).dsh.pending) == Some(version@),
        final(state).dsh.current == old(state).dsh.current,
        final(state).dsh.known_good == old(state).dsh.known_good,
        final(state).dsh.installed == old(state).dsh.installed,
        same_except_dsh_core(*old(state), *final(state)),
{
    state.dsh.pending = Some(String::from_str(version));
}

/// Clears the pending upgrade.
pub fn clear_pending(state: &mut AppState)
    ensures
        final(state).dsh.pending is None,
        final(state).dsh.current == old(state).dsh.current,
        final(state).dsh.known_good == old(state).dsh.known_good,
        final(state).dsh.installed == old(state).dsh.installed,
        same_except_dsh_core(*old(state), *final(state)),
{
    state.dsh.pending = None;
}

// ---------------------------------------------------------------------------
// Laws
// ---------------------------------------------------------------------------

/// A pointer reads back the version last written to it; writing one pointer
/// leaves the other pointer and the version directories alone.
pub proof fn law_pointer_reads_back_last_write(d: DshDirView, v: Seq<char>, w: Seq<char>)
    ensures
        with_current(with_current(d, w), v).current == Some(v),
        with_current(d, v).known_good == d.known_good,
        with_current(d, v).entries == d.entries,
        with_known_good(with_known_good(d, w), v).known_good == Some(v),
        with_known_good(d, v).current == d.current,
        with_known_good(d, v).entries == d.entries,
{
}

/// Switching succeeds exactly when the version is installed, and then only
/// the current pointer changes.
pub proof fn law_switch_requires_installed(d: DshDirView, v: Seq<char>)
    ensures
        switch_spec(d, v) is Ok <==> d.entries.contains(v),
        switch_spec(d, v) matches Ok(d1) ==> d1 == with_current(d, v),
{
}

/// Promoting a new version keeps the previous current as known-good, in the
/// state and in the pointer; promoting the current version again leaves no
/// known-good behind. Either way nothing is pending afterwards.
pub proof fn law_promote_keeps_previous_current(
    s: DshStateView,
    d: DshDirView,
    v: Seq<char>,
    now: i128,
)
    requires
        d.entries.contains(v),
    ensures
        promote_spec(s, d, v, now) matches Ok((s1, d1)) && {
            &&& s1.current == Some(v)
            &&& d1.current == Some(v)
            &&& s1.pending is None
            &&& (s.current is Some && s.current->0 != v ==> s1.known_good == s.current
                && d1.known_good == s.current)
            &&& (s.current == Some(v) ==> s1.known_good is None)
        },
{
}

/// Each version is listed at most once among the installed entries.
pub open spec fn versions_unique(inst: Seq<(Seq<char>, i128, Seq<char>)>) -> bool {
    forall|i: int, j: int| 0 <= i < j < inst.len() ==> inst[i].0 != inst[j].0
}

proof fn lemma_find_installed(inst: Seq<(Seq<char>, i128, Seq<char>)>, v: Seq<char>, i: int)
    requires
        0 <= i <= inst.len(),
    ensures
        find_installed(inst, v, i) matches Some(k) ==> i <= k < inst.len() && inst[k].0 == v,
        find_installed(inst, v, i) is None ==> forall|j: int| i <= j < inst.len() ==> inst[j].0 != v,
    decreases inst.len() - i,
{
    if i < inst.len() {
        lemma_find_installed(inst, v, i + 1);
    }
}

/// Setting a version's status keeps each version listed at most once, and
/// lists that version with the new status.
pub proof fn lemma_set_status(
    inst: Seq<(Seq<char>, i128, Seq<char>)>,
    v: Seq<char>,
    status: Seq<char>,
    now: i128,
)
    ensures
        versions_unique(inst) ==> versions_unique(set_status_spec(inst, v, status, now)),
        find_installed(set_status_spec(inst, v, status, now), v, 0) matches Some(k)
            && set_status_spec(inst, v, status, now)[k].2 == status,
{
    lemma_find_installed(inst, v, 0);
    let r = set_status_spec(inst, v, status, now);
    lemma_find_installed(r, v, 0);
    match find_installed(inst, v, 0) {
        Some(k) => {
            assert(r[k].0 == v);
            if find_installed(r, v, 0) != Some(k) {
                assert(find_installed(r, v, 0) is Some);
                let k2 = find_installed(r, v, 0)->0;
                if k2 < k {
                    lemma_find_first(inst, v, 0, k2);
                }
                lemma_find_first(r, v, 0, k);
            }
        },
        None => {
            assert(r[inst.len() as int].0 == v);
            if find_installed(r, v, 0) != Some(inst.len() as int) {
                assert(find_installed(r, v, 0) is Some);
            }
        },
    }
}

proof fn lemma_find_first(inst: Seq<(Seq<char>, i128, Seq<char>)>, v: Seq<char>, i: int, k: int)
    requires
        0 <= i <= k < inst.len(),
        inst[k].0 == v,
    ensures
        find_installed(inst, v, i) matches Some(f) && f <= k,
        forall|j: int| i <= j < find_installed(inst, v, i)->0 ==> inst[j].0 != v,
    decreases inst.len() - i,
{
    if inst[i].0 != v {
        lemma_find_first(inst, v, i + 1, k);
    }
}

/// A promoted version is never its own known-good one: the state's
/// known-good is the previous current only when that is another version.
/// The promoted version is listed as verified, and each version stays listed
/// at most once.
pub proof fn law_promote_never_its_own_known_good(
    s: DshStateView,
    d: DshDirView,
    v: Seq<char>,
    now: i128,
)
    requires
        d.entries.contains(v),
    ensures
        promote_spec(s, d, v, now) matches Ok((s1, d1)) && {
            &&& s1.known_good != Some(v)
            &&& s1.known_good != s1.current
            &&& find_installed(s1.installed, v, 0) matches Some(k) && s1.installed[k].2
                == "verified"@
            &&& (versions_unique(s.installed) ==> versions_unique(s1.installed))
        },
{
    lemma_set_status(s.installed, v, "verified"@, now);
}

/// Rolling back right after a promotion brings the previous current back:
/// it is returned, current in the state and in the pointer, and nothing is
/// known-good or pending any more.
pub proof fn law_rollback_undoes_promote(
    s: DshStateView,
    d: DshDirView,
    v: Seq<char>,
    c: Seq<char>,
    now1: i128,
    now2: i128,
)
    requires
        d.entries.contains(v),
        d.entries.contains(c),
        s.current == Some(c),
        c != v,
    ensures
        promote_spec(s, d, v, now1) matches Ok((s1, d1)) && rollback_spec(s1, d1, now2) matches Ok(
            (k, s2, d2),
        ) && k == c && s2.current == Some(c) && d2.current == Some(c) && s2.known_good is None
            && s2.pending is None,
{
}

/// Pruning never removes the current, known-good or pending version, nor a
/// pointer, nor any of the `keep_extra` newest other versions; it removes
/// only names the directory held, and keeps every other name.
pub proof fn law_prune_keeps_protected(
    d: DshDirView,
    s: DshStateView,
    keep_extra: nat,
    v: Seq<char>,
)
    ensures
        is_protected(s, v) ==> !prune_spec(d, s, keep_extra).contains(v),
        is_pointer_spec(v) ==> !prune_spec(d, s, keep_extra).contains(v),
        newer_count(d, s, v) < keep_extra ==> !prune_spec(d, s, keep_extra).contains(v),
        prune_spec(d, s, keep_extra).contains(v) ==> d.entries.contains(v),
        after_prune(d, s, keep_extra).entries.contains(v) <==> (d.entries.contains(v)
            && !is_pruned(d, s, keep_extra, v)),
        after_prune(d, s, keep_extra).current == d.current,
        after_prune(d, s, keep_extra).known_good == d.known_good,
{
    let pp = pruned_pred(d, s, keep_extra);
    let kp = kept_pred(d, s, keep_extra);
    if prune_spec(d, s, keep_extra).contains(v) {
        let k = choose|k: int|
            0 <= k < d.entries.filter(pp).len() && d.entries.filter(pp)[k] == v;
        d.entries.lemma_filter_pred(pp, k);
        d.entries.lemma_filter_contains_rev(pp, v);
    }
    if after_prune(d, s, keep_extra).entries.contains(v) {
        let k = choose|k: int|
            0 <= k < d.entries.filter(kp).len() && d.entries.filter(kp)[k] == v;
        d.entries.lemma_filter_pred(kp, k);
        d.entries.lemma_filter_contains_rev(kp, v);
    }
    if d.entries.contains(v) && !is_pruned(d, s, keep_extra, v) {
        let k = choose|k: int| 0 <= k < d.entries.len() && d.entries[k] == v;
        d.entries.lemma_filter_contains(kp, k);
    }
}

} // verus!
