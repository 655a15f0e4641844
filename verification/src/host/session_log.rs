//! The names of the files that keep one dsh session's output:
//! `dsh-<start time>.log`, then `dsh-<start time>-1.log` and so on when a
//! session with the same start time already has one.
use vstd::prelude::*;

use crate::text::{chars_of, dec, dec_exec, extend, lemma_dec_injective, lemma_dec_nonempty, string_of};

verus! {

broadcast use vstd::string::group_string_axioms;

/// The highest sequence number tried before giving up on a start time.
pub const MAX_SESSION_LOG_SEQUENCE: u32 = 999;

/// chrono's `%Y%m%dT%H%M%S%.9fZ` text of the UTC time `secs` seconds and
/// `nanos` nanoseconds after the Unix epoch, when chrono can represent it.
pub uninterp spec fn session_timestamp_text(secs: i64, nanos: u32) -> Option<Seq<char>>;

/// `chrono::DateTime::<Utc>::from_timestamp(secs, nanos)` formatted with
/// `%Y%m%dT%H%M%S%.9fZ`, as [`session_timestamp_text`] names it; `None`
/// where `from_timestamp` gives `None`.
#[verifier::external_body]
fn format_session_timestamp(secs: i64, nanos: u32) -> (r: Option<String>)
    ensures
        match session_timestamp_text(secs, nanos) {
            Some(t) => r matches Some(x) && x@ == t,
            None => r is None,
        },
{
    chrono::DateTime::<chrono::Utc>::from_timestamp(secs, nanos).map(
        |t| t.format("%Y%m%dT%H%M%S%.9fZ").to_string(),
    )
}

/// A session's start time as it appears in its log file's name.
pub fn session_timestamp(secs: i64, nanos: u32) -> (r: Option<String>)
    ensures
        match session_timestamp_text(secs, nanos) {
            Some(t) => r matches Some(x) && x@ == t,
            None => r is None,
        },
{
    format_session_timestamp(secs, nanos)
}

/// `dsh-<timestamp>.log` for the first try, `dsh-<timestamp>-<n>.log` for
/// the n-th retry.
pub open spec fn session_log_name_spec(timestamp: Seq<char>, sequence: nat) -> Seq<char> {
    if sequence == 0 {
        "dsh-"@ + timestamp + ".log"@
    } else {
        "dsh-"@ + timestamp + "-"@ + dec(sequence) + ".log"@
    }
}

/// The log file name to try for a session started at `timestamp`, on try
/// `sequence` (counted from 0).
pub fn session_log_file_name(timestamp: &str, sequence: u32) -> (r: String)
    ensures
        r@ == session_log_name_spec(timestamp@, sequence as nat),
{
    let mut m = chars_of("dsh-");
    extend(&mut m, &chars_of(timestamp));
    if sequence != 0 {
        extend(&mut m, &chars_of("-"));
        extend(&mut m, &dec_exec(sequence as u64));
    }
    extend(&mut m, &chars_of(".log"));
    string_of(&m)
}

/// Why no log file could be reserved for a start time.
pub fn session_log_exhausted(timestamp: &str) -> (r: String)
    ensures
        r@ == "could not reserve a unique dsh session log for "@ + timestamp@,
{
    let mut m = chars_of("could not reserve a unique dsh session log for ");
    extend(&mut m, &chars_of(timestamp));
    string_of(&m)
}

/// Two tries for the same start time never use the same name, so a second
/// session started in the same nanosecond gets a file of its own.
pub proof fn law_session_log_names_are_distinct(timestamp: Seq<char>, a: nat, b: nat)
    requires
        a != b,
    ensures
        session_log_name_spec(timestamp, a) != session_log_name_spec(timestamp, b),
{
    let na = session_log_name_spec(timestamp, a);
    let nb = session_log_name_spec(timestamp, b);
    if a == 0 {
        lemma_dec_nonempty(b);
        assert(na.len() < nb.len());
    } else if b == 0 {
        lemma_dec_nonempty(a);
        assert(nb.len() < na.len());
    } else if na == nb {
        let p = "dsh-"@ + timestamp + "-"@;
        assert(na =~= p + dec(a) + ".log"@);
        assert(nb =~= p + dec(b) + ".log"@);
        assert(dec(a).len() == dec(b).len());
        assert(na.subrange(p.len() as int, (p.len() + dec(a).len()) as int) =~= dec(a));
        assert(nb.subrange(p.len() as int, (p.len() + dec(b).len()) as int) =~= dec(b));
        lemma_dec_injective(a, b);
    }
}

} // verus!
