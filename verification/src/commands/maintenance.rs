//! Maintenance: rolling dsh back by hand, and what an uninstall removes
//! from the data directory (everything the launcher owns, but not the
//! logs).
use vstd::prelude::*;

use crate::text::{join_path, join_path_exec};

verus! {

broadcast use vstd::string::group_string_axioms;

/// The names under the data directory that the managed runtime owns.
pub open spec fn owned_names() -> Seq<Seq<char>> {
    seq![
        "state.json"@,
        "node-runtime"@,
        "dsh"@,
        "bin"@,
        "dsh-cli-shim.cjs"@,
        "npm-cache"@,
        "npmrc"@,
        "npmrc-global"@,
    ]
}

/// The paths an uninstall removes (when they exist), in order.
pub fn managed_runtime_paths(data_dir: &str) -> (r: Vec<String>)
    ensures
        r@.len() == owned_names().len(),
        forall|i: int| 0 <= i < r@.len() ==> r@[i]@ == join_path(data_dir@, owned_names()[i]),
{
    let names: [&str; 8] = [
        "state.json",
        "node-runtime",
        "dsh",
        "bin",
        "dsh-cli-shim.cjs",
        "npm-cache",
        "npmrc",
        "npmrc-global",
    ];
    let mut r: Vec<String> = Vec::new();
    for i in 0..8
        invariant
            names@ =~= seq![
                "state.json",
                "node-runtime",
                "dsh",
                "bin",
                "dsh-cli-shim.cjs",
                "npm-cache",
                "npmrc",
                "npmrc-global",
            ],
            r@.len() == i,
            forall|k: int| 0 <= k < i ==> r@[k]@ == join_path(data_dir@, owned_names()[k]),
    {
        r.push(join_path_exec(data_dir, names[i]));
    }
    r
}

} // verus!
