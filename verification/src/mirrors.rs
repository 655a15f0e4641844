//! The Node.js download mirrors the launcher offers.
use vstd::prelude::*;

use crate::text::str_eq;

verus! {

broadcast use vstd::string::group_string_axioms;

/// A Node.js download mirror.
#[derive(Debug, Clone, PartialEq, Eq)]
pub struct Mirror {
    pub id: &'static str,
    pub name: &'static str,
    pub base_url: &'static str,
    pub trusted: bool,
}

/// The base URLs of the built-in mirrors, in order.
pub open spec fn builtin_mirror_urls() -> Seq<Seq<char>> {
    seq!["https://npmmirror.com/mirrors/node"@, "https://nodejs.org/dist"@]
}

/// The built-in mirrors: npmmirror first, then nodejs.org. Both are
/// trusted.
pub fn builtin_mirrors() -> (r: Vec<Mirror>)
    ensures
        r@.len() == 2,
        forall|i: int| 0 <= i < 2 ==> r@[i].base_url@ == builtin_mirror_urls()[i] && r@[i].trusted,
{
    let mut r: Vec<Mirror> = Vec::new();
    r.push(
        Mirror {
            id: "npmmirror",
            name: "npmmirror",
            base_url: "https://npmmirror.com/mirrors/node",
            trusted: true,
        },
    );
    r.push(
        Mirror { id: "nodejs", name: "nodejs.org", base_url: "https://nodejs.org/dist", trusted: true },
    );
    r
}

/// The mirror used when none was chosen: the first built-in one.
pub fn default_mirror_url() -> (r: &'static str)
    ensures
        r@ == builtin_mirror_urls()[0],
{
    "https://npmmirror.com/mirrors/node"
}

/// `url` is the base URL of a built-in mirror.
pub fn is_builtin_mirror(url: &str) -> (r: bool)
    ensures
        r == builtin_mirror_urls().contains(url@),
{
    let a = str_eq(url, "https://npmmirror.com/mirrors/node");
    let b = str_eq(url, "https://nodejs.org/dist");
    proof {
        let u = builtin_mirror_urls();
        if u.contains(url@) {
            let k = choose|k: int| 0 <= k < u.len() && u[k] == url@;
            assert(k == 0 || k == 1);
        }
        if a {
            assert(u[0] == url@);
        }
        if b {
            assert(u[1] == url@);
        }
    }
    a || b
}

} // verus!
