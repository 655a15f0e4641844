//! Host readiness-line parsing.
//!
//! The host prints `dsh web: <url>` once it listens. The URL must be plain
//! `http` on a loopback host with an explicit port, and end at the origin or
//! at `/`: a path, query or fragment after it is refused.
use vstd::prelude::*;

use crate::text::{
    chars_of, concat, dec, dec_exec, eq, find_from, matches_at, extend, find, find_char, find_exec, is_whitespace, is_ws, lead_len,
    lead_ws, lemma_find_from_props, lemma_lead_len_bound, lemma_lead_len_run, lemma_rfind_props,
    lemma_trail_len_run, non_ws_pred, rfind, rfind_exec, slice_of, starts_with, starts_with_exec,
    string_of, trail_len, trim_start, words, ws_pred,
};

verus! {

broadcast use vstd::string::group_string_axioms;

/// Startup stdout buffer capacity.
pub const MAX_STARTUP_OUTPUT_CHARS: usize = 32768;

/// Readiness output line prefix.
pub const READINESS_PREFIX: &'static str = "dsh web: ";

/// A validated loopback HTTP origin: `http://<host>:<port>`.
#[derive(Debug, Clone, PartialEq, Eq)]
pub struct Origin(String);

impl View for Origin {
    type V = Seq<char>;

    closed spec fn view(&self) -> Seq<char> {
        self.0@
    }
}

impl Origin {
    /// The origin text.
    pub fn as_str(&self) -> (r: &str)
        ensures
            r@ == self@,
    {
        self.0.as_str()
    }

    /// A copy of the origin.
    pub fn copy(&self) -> (r: Origin)
        ensures
            r@ == self@,
    {
        Origin(self.0.clone())
    }
}

/// Readiness parsing errors.
#[derive(Debug, Clone, PartialEq, Eq)]
pub enum ReadinessError {
    MalformedLine(String),
    InvalidUrl(String),
    Conflicting { first: String, second: String },
    NoReadiness,
}

/// What a readiness error says, as text.
pub ghost enum ReadinessFault {
    MalformedLine(Seq<char>),
    InvalidUrl(Seq<char>),
    Conflicting(Seq<char>, Seq<char>),
    NoReadiness,
}

impl View for ReadinessError {
    type V = ReadinessFault;

    open spec fn view(&self) -> ReadinessFault {
        match self {
            ReadinessError::MalformedLine(m) => ReadinessFault::MalformedLine(m@),
            ReadinessError::InvalidUrl(m) => ReadinessFault::InvalidUrl(m@),
            ReadinessError::Conflicting { first, second } => ReadinessFault::Conflicting(
                first@,
                second@,
            ),
            ReadinessError::NoReadiness => ReadinessFault::NoReadiness,
        }
    }
}

pub open spec fn fault_message(f: ReadinessFault) -> Seq<char> {
    match f {
        ReadinessFault::MalformedLine(m) => "malformed readiness line: "@ + m,
        ReadinessFault::InvalidUrl(m) => "invalid readiness URL: "@ + m,
        ReadinessFault::Conflicting(a, b) => "conflicting readiness URLs: "@ + a + " and "@ + b,
        ReadinessFault::NoReadiness => "Host exited before emitting its readiness URL"@,
    }
}

impl ReadinessError {
    /// The error's display text.
    pub fn message(&self) -> (r: String)
        ensures
            r@ == fault_message(self@),
    {
        match self {
            ReadinessError::MalformedLine(m) => {
                let mut r = String::from_str("malformed readiness line: ");
                r.append(m.as_str());
                r
            },
            ReadinessError::InvalidUrl(m) => {
                let mut r = String::from_str("invalid readiness URL: ");
                r.append(m.as_str());
                r
            },
            ReadinessError::Conflicting { first, second } => {
                let mut r = String::from_str("conflicting readiness URLs: ");
                r.append(first.as_str());
                r.append(" and ");
                r.append(second.as_str());
                r
            },
            ReadinessError::NoReadiness => String::from_str(
                "Host exited before emitting its readiness URL",
            ),
        }
    }
}

// ---------------------------------------------------------------------------
// Specification
// ---------------------------------------------------------------------------

pub open spec fn is_digit(c: char) -> bool {
    0x30 <= (c as u32) <= 0x39
}

pub open spec fn digit_value(c: char) -> nat {
    ((c as u32) - 0x30) as nat
}

/// Decimal value of a run of digits.
pub open spec fn digits_value(s: Seq<char>) -> nat
    decreases s.len(),
{
    if s.len() == 0 {
        0
    } else {
        10 * digits_value(s.drop_last()) + digit_value(s.last())
    }
}

/// The digits of an unsigned number: `s` without a leading `+`.
pub open spec fn unsigned_digits(s: Seq<char>) -> Seq<char> {
    if s.len() > 0 && s[0] == '+' {
        s.skip(1)
    } else {
        s
    }
}

pub open spec fn all_digits(d: Seq<char>) -> bool {
    forall|i: int| 0 <= i < d.len() ==> is_digit(#[trigger] d[i])
}

/// `u16::from_str`: an optional `+`, then one or more ASCII digits, at most 65535.
pub open spec fn parse_u16_spec(s: Seq<char>) -> Option<nat> {
    let d = unsigned_digits(s);
    if d.len() == 0 || !all_digits(d) {
        None
    } else if digits_value(d) > 65535 {
        None
    } else {
        Some(digits_value(d))
    }
}

pub open spec fn is_url_delim(c: char) -> bool {
    c == '/' || c == '?' || c == '#'
}

/// First index at or after `i` of `/`, `?` or `#` in `s`, else `s.len()`.
pub open spec fn delim_from(s: Seq<char>, i: int) -> int
    decreases s.len() - i,
{
    if i >= s.len() || i < 0 {
        s.len() as int
    } else if is_url_delim(s[i]) {
        i
    } else {
        delim_from(s, i + 1)
    }
}

pub open spec fn invalid(prefix: Seq<char>, token: Seq<char>) -> Result<Seq<char>, ReadinessFault> {
    Err(ReadinessFault::InvalidUrl(prefix + token))
}

/// The origin a readiness URL token names, or why it is refused.
pub open spec fn parse_token_spec(t: Seq<char>) -> Result<Seq<char>, ReadinessFault> {
    match find(t, "://"@) {
        None => invalid("missing scheme: "@, t),
        Some(i) => {
            let scheme = t.take(i);
            let rest = t.skip(i + 3);
            if scheme != "http"@ {
                invalid("protocol must be http: "@, t)
            } else {
                let ae = delim_from(rest, 0);
                let authority = rest.take(ae);
                let trailing = rest.skip(ae);
                match rfind(authority, ':') {
                    None => invalid("missing port: "@, t),
                    Some(k) => {
                        let host = authority.take(k);
                        let port_str = authority.skip(k + 1);
                        if host.len() == 0 {
                            invalid("empty host: "@, t)
                        } else if host != "127.0.0.1"@ && host != "localhost"@ {
                            invalid("host must be loopback: "@, t)
                        } else {
                            match parse_u16_spec(port_str) {
                                None => invalid("invalid port: "@, t),
                                Some(port) => {
                                    if port == 0 {
                                        invalid("port must be explicit (1..=65535): "@, t)
                                    } else if trailing.len() != 0 && trailing != "/"@ {
                                        invalid(
                                            "readiness URL must have pathname '/' and no query or hash: "@,
                                            t,
                                        )
                                    } else {
                                        Ok("http://"@ + host + ":"@ + dec(port))
                                    }
                                },
                            }
                        }
                    },
                }
            }
        },
    }
}

/// What one output line says about readiness.
pub open spec fn parse_line_spec(line: Seq<char>) -> Result<Option<Seq<char>>, ReadinessFault> {
    if !starts_with(line, "dsh web: "@) {
        Ok(None)
    } else {
        let ws = words(line.skip(9));
        if ws.len() == 0 {
            Err(ReadinessFault::MalformedLine("readiness line has no URL: "@ + line))
        } else {
            match parse_token_spec(ws[0]) {
                Ok(o) => Ok(Some(o)),
                Err(e) => Err(e),
            }
        }
    }
}

/// Removes one trailing carriage return.
pub open spec fn strip_cr(line: Seq<char>) -> Seq<char> {
    if line.len() > 0 && line.last() == '\r' {
        line.drop_last()
    } else {
        line
    }
}

pub open spec fn cr_pred() -> spec_fn(char) -> bool {
    |c: char| c == '\r'
}

/// Records a readiness origin: a second, different origin is a conflict.
pub open spec fn record_spec(ready: Option<Seq<char>>, o: Seq<char>) -> (
    Option<Seq<char>>,
    Result<Option<Seq<char>>, ReadinessFault>,
) {
    match ready {
        Some(e) => if e != o {
            (ready, Err(ReadinessFault::Conflicting(e, o)))
        } else {
            (Some(o), Ok(Some(o)))
        },
        None => (Some(o), Ok(Some(o))),
    }
}

/// Consumes complete lines of `pending` until a readiness line or an error;
/// gives the remaining text, the recorded origin and the reply.
pub open spec fn push_spec(pending: Seq<char>, ready: Option<Seq<char>>) -> (
    Seq<char>,
    Option<Seq<char>>,
    Result<Option<Seq<char>>, ReadinessFault>,
)
    decreases pending.len(),
{
    match find(pending, seq!['\n']) {
        None => (pending, ready, Ok(ready)),
        Some(idx) => {
            if 0 <= idx < pending.len() {
                let line = strip_cr(pending.take(idx));
                let rest = pending.skip(idx + 1);
                match parse_line_spec(line) {
                    Err(e) => (rest, ready, Err(e)),
                    Ok(None) => push_spec(rest, ready),
                    Ok(Some(o)) => {
                        let (nr, res) = record_spec(ready, o);
                        (rest, nr, res)
                    },
                }
            } else {
                (pending, ready, Ok(ready))
            }
        },
    }
}

/// The answer once the host's output has ended, and the recorded origin.
pub open spec fn finalize_spec(pending: Seq<char>, ready: Option<Seq<char>>) -> (
    Option<Seq<char>>,
    Result<Seq<char>, ReadinessFault>,
) {
    let line = pending.take(pending.len() - trail_len(pending, cr_pred()));
    if pending.len() > 0 && line.len() > 0 {
        match parse_line_spec(line) {
            Err(e) => (ready, Err(e)),
            Ok(None) => finish_spec(ready),
            Ok(Some(o)) => {
                let (nr, res) = record_spec(ready, o);
                match res {
                    Err(e) => (ready, Err(e)),
                    Ok(_) => finish_spec(nr),
                }
            },
        }
    } else {
        finish_spec(ready)
    }
}

pub open spec fn finish_spec(ready: Option<Seq<char>>) -> (
    Option<Seq<char>>,
    Result<Seq<char>, ReadinessFault>,
) {
    match ready {
        Some(o) => (ready, Ok(o)),
        None => (ready, Err(ReadinessFault::NoReadiness)),
    }
}

// ---------------------------------------------------------------------------
// Parsing
// ---------------------------------------------------------------------------

proof fn lemma_digits_value_mono(s: Seq<char>, k: int)
    requires
        0 <= k <= s.len(),
    ensures
        digits_value(s.take(k)) <= digits_value(s),
    decreases s.len() - k,
{
    if k < s.len() {
        lemma_digits_value_mono(s, k + 1);
        assert(s.take(k + 1).drop_last() =~= s.take(k));
    } else {
        assert(s.take(k) =~= s);
    }
}

/// `u16::from_str`.
fn parse_u16(s: &Vec<char>) -> (r: Option<u32>)
    ensures
        match parse_u16_spec(s@) {
            Some(v) => r == Some(v as u32),
            None => r is None,
        },
{
    let start: usize = if s.len() > 0 && s[0] == '+' {
        1
    } else {
        0
    };
    let d = slice_of(s, start, s.len());
    assert(d@ =~= unsigned_digits(s@));
    if d.len() == 0 {
        return None;
    }
    for i in 0..d.len()
        invariant
            d@ == unsigned_digits(s@),
            forall|k: int| 0 <= k < i ==> is_digit(#[trigger] d@[k]),
    {
        let v: u32 = d[i] as u32;
        if !(0x30 <= v && v <= 0x39) {
            assert(!is_digit(d@[i as int]));
            assert(!all_digits(d@));
            return None;
        }
    }
    assert(all_digits(d@));
    let mut value: u32 = 0;
    for i in 0..d.len()
        invariant
            value == digits_value(d@.take(i as int)),
            value <= 65535,
            d@ == unsigned_digits(s@),
            all_digits(d@),
            forall|k: int| 0 <= k < d@.len() ==> is_digit(#[trigger] d@[k]),
    {
        assert(d@.take(i + 1).drop_last() =~= d@.take(i as int));
        assert(d@.take(i + 1).last() == d@[i as int]);
        assert(is_digit(d@[i as int]));
        let next: u32 = value * 10 + (d[i] as u32 - 0x30);
        assert(next == digits_value(d@.take(i + 1)));
        if next > 65535 {
            proof {
                lemma_digits_value_mono(d@, i + 1);
            }
            return None;
        }
        value = next;
    }
    assert(d@.take(d@.len() as int) =~= d@);
    Some(value)
}

/// First index at or after `i` of a URL delimiter.
fn delim_from_exec(s: &Vec<char>) -> (r: usize)
    ensures
        r == delim_from(s@, 0),
{
    let mut i: usize = 0;
    while i < s.len()
        invariant
            i <= s.len(),
            delim_from(s@, 0) == delim_from(s@, i as int),
        decreases s.len() - i,
    {
        let c = s[i];
        if c == '/' || c == '?' || c == '#' {
            return i;
        }
        i += 1;
    }
    i
}

proof fn lemma_delim_bound(s: Seq<char>, i: int)
    requires
        0 <= i <= s.len(),
    ensures
        i <= delim_from(s, i) <= s.len(),
    decreases s.len() - i,
{
    if i < s.len() && !is_url_delim(s[i]) {
        lemma_delim_bound(s, i + 1);
    }
}

fn invalid_exec(prefix: &str, token: &Vec<char>) -> (r: ReadinessError)
    ensures
        r@ == ReadinessFault::InvalidUrl(prefix@ + token@),
{
    let p = chars_of(prefix);
    ReadinessError::InvalidUrl(string_of(&concat(&p, token)))
}

/// Validates a readiness URL token.
fn parse_token(t: &Vec<char>) -> (r: Result<Origin, ReadinessError>)
    ensures
        match parse_token_spec(t@) {
            Ok(o) => r matches Ok(x) && x@ == o,
            Err(e) => r matches Err(x) && x@ == e,
        },
{
    let sep = chars_of("://");
    let i = match find_exec(t, &sep) {
        None => return Err(invalid_exec("missing scheme: ", t)),
        Some(i) => i,
    };
    proof {
        reveal_strlit("://");
        lemma_find_from_props(t@, sep@, 0);
    }
    let n = t.len();
    let scheme = slice_of(t, 0, i);
    let rest = slice_of(t, i + 3, n);
    assert(scheme@ =~= t@.take(i as int));
    assert(rest@ =~= t@.skip(i + 3));
    if !eq(&scheme, &chars_of("http")) {
        return Err(invalid_exec("protocol must be http: ", t));
    }
    let ae = delim_from_exec(&rest);
    proof {
        lemma_delim_bound(rest@, 0);
    }
    let authority = slice_of(&rest, 0, ae);
    let trailing = slice_of(&rest, ae, rest.len());
    assert(authority@ =~= rest@.take(ae as int));
    assert(trailing@ =~= rest@.skip(ae as int));
    let k = match rfind_exec(&authority, ':') {
        None => return Err(invalid_exec("missing port: ", t)),
        Some(k) => k,
    };
    proof {
        lemma_rfind_props(authority@, ':', authority@.len() as int);
    }
    let host = slice_of(&authority, 0, k);
    let port_str = slice_of(&authority, k + 1, authority.len());
    assert(host@ =~= authority@.take(k as int));
    assert(port_str@ =~= authority@.skip(k + 1));
    if host.len() == 0 {
        return Err(invalid_exec("empty host: ", t));
    }
    if !eq(&host, &chars_of("127.0.0.1")) && !eq(&host, &chars_of("localhost")) {
        return Err(invalid_exec("host must be loopback: ", t));
    }
    let port = match parse_u16(&port_str) {
        None => return Err(invalid_exec("invalid port: ", t)),
        Some(p) => p,
    };
    if port == 0 {
        return Err(invalid_exec("port must be explicit (1..=65535): ", t));
    }
    let is_root = trailing.len() == 0 || eq(&trailing, &chars_of("/"));
    if !is_root {
        return Err(
            invalid_exec("readiness URL must have pathname '/' and no query or hash: ", t),
        );
    }
    let mut out = chars_of("http://");
    extend(&mut out, &host);
    extend(&mut out, &chars_of(":"));
    extend(&mut out, &dec_exec(port as u64));
    Ok(Origin(string_of(&out)))
}

/// First whitespace-separated word of `s`, if any.
fn first_word(s: &Vec<char>) -> (r: Option<Vec<char>>)
    ensures
        words(s@).len() == 0 ==> r is None,
        words(s@).len() > 0 ==> (r matches Some(w) && w@ == words(s@)[0]),
{
    let a = lead_ws(s);
    proof {
        lemma_lead_len_bound(s@, ws_pred());
    }
    let t = slice_of(s, a, s.len());
    assert(t@ =~= trim_start(s@));
    if t.len() == 0 {
        return None;
    }
    let mut j: usize = 0;
    while j < t.len() && !is_whitespace(t[j])
        invariant
            j <= t.len(),
            forall|k: int| 0 <= k < j ==> #[trigger] non_ws_pred()(t@[k]),
        decreases t.len() - j,
    {
        j += 1;
    }
    proof {
        lemma_lead_len_run(t@, non_ws_pred(), 0, j as int);
        assert(t@.skip(0) =~= t@);
        lemma_lead_len_bound(trim_start(s@), ws_pred());
        lemma_lead_len_bound(s@, ws_pred());
        if trim_start(s@).len() > 0 {
            assert(!is_ws(trim_start(s@)[0]));
        }
    }
    let w = slice_of(&t, 0, j);
    assert(w@ =~= t@.take(j as int));
    Some(w)
}

/// Parses one readiness output line.
pub fn parse_readiness_line(line: &str) -> (r: Result<Option<Origin>, ReadinessError>)
    ensures
        match parse_line_spec(line@) {
            Ok(None) => r matches Ok(None),
            Ok(Some(o)) => r matches Ok(Some(x)) && x@ == o,
            Err(e) => r matches Err(x) && x@ == e,
        },
{
    let l = chars_of(line);
    parse_line_chars(&l)
}

fn parse_line_chars(l: &Vec<char>) -> (r: Result<Option<Origin>, ReadinessError>)
    ensures
        match parse_line_spec(l@) {
            Ok(None) => r matches Ok(None),
            Ok(Some(o)) => r matches Ok(Some(x)) && x@ == o,
            Err(e) => r matches Err(x) && x@ == e,
        },
{
    let prefix = chars_of(READINESS_PREFIX);
    proof {
        reveal_strlit("dsh web: ");
    }
    if !starts_with_exec(l, &prefix) {
        return Ok(None);
    }
    let rest = slice_of(l, 9, l.len());
    assert(rest@ =~= l@.skip(9));
    match first_word(&rest) {
        None => {
            let mut m = chars_of("readiness line has no URL: ");
            extend(&mut m, l);
            Err(ReadinessError::MalformedLine(string_of(&m)))
        },
        Some(token) => match parse_token(&token) {
            Ok(o) => Ok(Some(o)),
            Err(e) => Err(e),
        },
    }
}

// ---------------------------------------------------------------------------
// Incremental parser
// ---------------------------------------------------------------------------

/// Incrementally parses host stdout for its readiness origin.
pub struct ReadinessParser {
    pending: Vec<char>,
    ready: Option<String>,
}

pub open spec fn opt_view(o: Option<String>) -> Option<Seq<char>> {
    match o {
        Some(s) => Some(s@),
        None => None,
    }
}

impl View for ReadinessParser {
    type V = (Seq<char>, Option<Seq<char>>);

    closed spec fn view(&self) -> (Seq<char>, Option<Seq<char>>) {
        (self.pending@, opt_view(self.ready))
    }
}

pub open spec fn reply_matches(
    r: Result<Option<Origin>, ReadinessError>,
    s: Result<Option<Seq<char>>, ReadinessFault>,
) -> bool {
    match s {
        Ok(None) => r matches Ok(None),
        Ok(Some(o)) => r matches Ok(Some(x)) && x@ == o,
        Err(e) => r matches Err(x) && x@ == e,
    }
}

impl ReadinessParser {
    /// A parser that has seen no output.
    pub fn new() -> (r: Self)
        ensures
            r@ == (Seq::<char>::empty(), None::<Seq<char>>),
    {
        ReadinessParser { pending: Vec::new(), ready: None }
    }

    fn record_origin(&mut self, parsed: Origin) -> (r: Result<Option<Origin>, ReadinessError>)
        ensures
            final(self)@.0 == old(self)@.0,
            final(self)@.1 == record_spec(old(self)@.1, parsed@).0,
            reply_matches(r, record_spec(old(self)@.1, parsed@).1),
    {
        let parsed_str = parsed.0.clone();
        match &self.ready {
            Some(existing) => {
                if *existing != parsed_str {
                    return Err(
                        ReadinessError::Conflicting { first: existing.clone(), second: parsed_str },
                    );
                }
            },
            None => {},
        }
        self.ready = Some(parsed_str.clone());
        Ok(Some(Origin(parsed_str)))
    }

    /// Feeds a chunk of host stdout. Complete lines are consumed until the
    /// first readiness line; the reply is the recorded origin, if any.
    pub fn push(&mut self, chunk: &str) -> (r: Result<Option<Origin>, ReadinessError>)
        ensures
            (final(self)@.0, final(self)@.1) == (
                push_spec(old(self)@.0 + chunk@, old(self)@.1).0,
                push_spec(old(self)@.0 + chunk@, old(self)@.1).1,
            ),
            reply_matches(r, push_spec(old(self)@.0 + chunk@, old(self)@.1).2),
    {
        let c = chars_of(chunk);
        extend(&mut self.pending, &c);
        loop
            invariant
                push_spec(self@.0, self@.1) == push_spec(old(self)@.0 + chunk@, old(self)@.1),
            decreases self@.0.len(),
        {
            let idx = match find_char(&self.pending, '\n') {
                None => {
                    return match &self.ready {
                        Some(o) => Ok(Some(Origin(o.clone()))),
                        None => Ok(None),
                    };
                },
                Some(i) => i,
            };
            proof {
                lemma_find_from_props(self.pending@, seq!['\n'], 0);
                assert(matches_at(self.pending@, idx as int, seq!['\n']));
            }
            let n = self.pending.len();
            let raw = slice_of(&self.pending, 0, idx);
            let rest = slice_of(&self.pending, idx + 1, n);
            assert(raw@ =~= self.pending@.take(idx as int));
            assert(rest@ =~= self.pending@.skip(idx + 1));
            let line = if raw.len() > 0 && raw[raw.len() - 1] == '\r' {
                slice_of(&raw, 0, raw.len() - 1)
            } else {
                raw
            };
            assert(line@ =~= strip_cr(self.pending@.take(idx as int)));
            self.pending = rest;
            match parse_line_chars(&line) {
                Err(e) => return Err(e),
                Ok(None) => {},
                Ok(Some(parsed)) => return self.record_origin(parsed),
            }
        }
    }

    /// The origin once the host's output has ended: a pending final line
    /// (without newline) is parsed too; no origin is `NoReadiness`.
    pub fn finalize(&mut self) -> (r: Result<Origin, ReadinessError>)
        ensures
            final(self)@.0 == old(self)@.0,
            final(self)@.1 == finalize_spec(old(self)@.0, old(self)@.1).0,
            match finalize_spec(old(self)@.0, old(self)@.1).1 {
                Ok(o) => r matches Ok(x) && x@ == o,
                Err(e) => r matches Err(x) && x@ == e,
            },
    {
        if self.pending.len() > 0 {
            let mut j: usize = self.pending.len();
            while j > 0 && self.pending[j - 1] == '\r'
                invariant
                    j <= self.pending.len(),
                    forall|k: int| j <= k < self.pending@.len() ==> #[trigger] cr_pred()(
                        self.pending@[k],
                    ),
                decreases j,
            {
                j -= 1;
            }
            proof {
                lemma_trail_len_run(self.pending@, cr_pred(), j as int, self.pending@.len() as int);
                assert(self.pending@.take(self.pending@.len() as int) =~= self.pending@);
            }
            let line = slice_of(&self.pending, 0, j);
            if line.len() > 0 {
                match parse_line_chars(&line) {
                    Err(e) => return Err(e),
                    Ok(None) => {},
                    Ok(Some(parsed)) => {
                        match self.record_origin(parsed) {
                            Err(e) => return Err(e),
                            Ok(_) => {},
                        }
                    },
                }
            }
        }
        match &self.ready {
            Some(o) => Ok(Origin(o.clone())),
            None => Err(ReadinessError::NoReadiness),
        }
    }
}


// ---------------------------------------------------------------------------
// Laws
// ---------------------------------------------------------------------------

proof fn lemma_single_char_match(s: Seq<char>, k: int, c: char)
    requires
        0 <= k < s.len(),
    ensures
        matches_at(s, k, seq![c]) <==> s[k] == c,
{
    assert(s.subrange(k, k + 1) =~= seq![s[k]]);
    if matches_at(s, k, seq![c]) {
        assert(s.subrange(k, k + 1)[0] == c);
    }
}

/// In `l + "\n"` where `l` holds no newline, the first newline is at `l.len()`.
proof fn lemma_find_newline_at_end(l: Seq<char>, i: int)
    requires
        0 <= i <= l.len(),
        forall|k: int| 0 <= k < l.len() ==> l[k] != '\n',
    ensures
        find_from(l.push('\n'), seq!['\n'], i) == Some(l.len() as int),
    decreases l.len() - i,
{
    let s = l.push('\n');
    lemma_single_char_match(s, i, '\n');
    if i < l.len() {
        lemma_find_newline_at_end(l, i + 1);
    }
}

/// Without a newline in `s`, there is no complete line to consume.
proof fn lemma_no_newline(s: Seq<char>, i: int)
    requires
        0 <= i,
        forall|k: int| 0 <= k < s.len() ==> s[k] != '\n',
    ensures
        find_from(s, seq!['\n'], i) is None,
    decreases s.len() + 1 - i,
{
    if i < s.len() {
        lemma_single_char_match(s, i, '\n');
        lemma_no_newline(s, i + 1);
    }
}

/// Once an origin is recorded it never changes: any further output either
/// confirms it or is refused.
pub proof fn law_recorded_origin_is_stable(pending: Seq<char>, o: Seq<char>)
    ensures
        push_spec(pending, Some(o)).1 == Some(o),
        finalize_spec(pending, Some(o)).0 == Some(o),
    decreases pending.len(),
{
    match find(pending, seq!['\n']) {
        None => {},
        Some(idx) => {
            if 0 <= idx < pending.len() {
                let rest = pending.skip(idx + 1);
                let line = strip_cr(pending.take(idx));
                match parse_line_spec(line) {
                    Ok(None) => law_recorded_origin_is_stable(rest, o),
                    _ => {},
                }
            }
        },
    }
}

/// Output without a newline is buffered: nothing is parsed and the reply is
/// the origin recorded so far.
pub proof fn law_partial_line_is_buffered(
    pending: Seq<char>,
    chunk: Seq<char>,
    ready: Option<Seq<char>>,
)
    requires
        forall|k: int| 0 <= k < pending.len() ==> pending[k] != '\n',
        forall|k: int| 0 <= k < chunk.len() ==> chunk[k] != '\n',
    ensures
        push_spec(pending + chunk, ready) == (pending + chunk, ready, Ok::<
            Option<Seq<char>>,
            ReadinessFault,
        >(ready)),
{
    let s = pending + chunk;
    assert forall|k: int| 0 <= k < s.len() implies s[k] != '\n' by {
        if k < pending.len() {
            assert(s[k] == pending[k]);
        } else {
            assert(s[k] == chunk[k - pending.len()]);
        }
    }
    lemma_no_newline(s, 0);
}

/// A complete readiness line is answered with its origin when none was
/// recorded or the same one was; a different origin is a conflict that
/// leaves the recorded one in place.
pub proof fn law_readiness_line_reply(line: Seq<char>, ready: Option<Seq<char>>, o: Seq<char>)
    requires
        forall|k: int| 0 <= k < line.len() ==> line[k] != '\n',
        line.len() == 0 || line.last() != '\r',
        parse_line_spec(line) == Ok::<Option<Seq<char>>, ReadinessFault>(Some(o)),
    ensures
        ready is None || ready == Some(o) ==> push_spec(line.push('\n'), ready) == (
            Seq::<char>::empty(),
            Some(o),
            Ok::<Option<Seq<char>>, ReadinessFault>(Some(o)),
        ),
        ready is Some && ready->0 != o ==> push_spec(line.push('\n'), ready) == (
            Seq::<char>::empty(),
            ready,
            Err::<Option<Seq<char>>, ReadinessFault>(ReadinessFault::Conflicting(ready->0, o)),
        ),
{
    let s = line.push('\n');
    lemma_find_newline_at_end(line, 0);
    assert(s.take(line.len() as int) =~= line);
    assert(s.skip(line.len() as int + 1) =~= Seq::<char>::empty());
}

} // verus!
