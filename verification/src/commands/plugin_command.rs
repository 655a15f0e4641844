//! `dsh plugin` commands typed by the user: validation, output summaries and
//! the pnpm `allowBuilds` repair that lets a blocked plugin install retry.
use vstd::prelude::*;

use crate::error::{Fault, LauncherError};
use crate::text::{
    all_chars, byte_len, byte_len_at_most, chars_of, concat, contains, dec, dec_exec, contains_exec, ends_with,
    ends_with_exec, eq, extend, find, find_char, find_exec, is_ascii_alnum, is_cc, is_control,
    join, join_exec, len_utf8, lemma_byte_len_concat, lemma_find_from_props, lemma_rfind_props,
    find_from, find_from_exec, lemma_seq_lt_asym, lemma_seq_lt_irrefl, lemma_seq_lt_total,
    lemma_seq_lt_trans, lines, lines_exec, push_unique, replace_all, replace_exec, rfind,
    rfind_exec, seq_less, seq_lt, slice_of, split_char,
    split_char_exec, split_ws_exec, starts_with, starts_with_exec, string_of, trail_len, trim,
    trim_exec, trail_count2, utf8_width, words, is_ws, ws_pred, trim_start, str_eq,
};

verus! {

broadcast use vstd::string::group_string_axioms;

pub const MAX_COMMAND_LENGTH: usize = 2048;

pub const MAX_PROFILE_LENGTH: usize = 64;

pub const MAX_SOURCE_LENGTH: usize = 1024;

/// Seconds a plugin command may run.
pub const COMMAND_TIMEOUT_SECS: u64 = 300;

/// Attempts of one plugin command, the first included.
pub const MAX_PLUGIN_ATTEMPTS: usize = 3;

/// Characters kept in a summary.
pub const SUMMARY_LIMIT: usize = 280;

/// The plugin operation requested.
#[derive(Debug, Clone, Copy, PartialEq, Eq, Structural)]
pub enum PluginAction {
    Add,
    Remove,
}

pub open spec fn action_spec(value: Seq<char>) -> Option<PluginAction> {
    if value == "add"@ {
        Some(PluginAction::Add)
    } else if value == "remove"@ {
        Some(PluginAction::Remove)
    } else {
        None
    }
}

impl PluginAction {
    /// `add` or `remove`.
    pub fn parse(value: &str) -> (r: Option<Self>)
        ensures
            r == action_spec(value@),
    {
        let v = chars_of(value);
        if eq(&v, &chars_of("add")) {
            Some(PluginAction::Add)
        } else if eq(&v, &chars_of("remove")) {
            Some(PluginAction::Remove)
        } else {
            None
        }
    }

    /// The command word.
    pub fn as_str(&self) -> (r: &'static str)
        ensures
            r@ == (match self {
                PluginAction::Add => "add"@,
                PluginAction::Remove => "remove"@,
            }),
    {
        match self {
            PluginAction::Add => "add",
            PluginAction::Remove => "remove",
        }
    }
}

/// A validated `dsh plugin --profile <profile> add|remove <source>` command.
#[derive(Debug, Clone, PartialEq, Eq)]
pub struct PluginCommand {
    pub action: PluginAction,
    pub profile: String,
    pub source: String,
}

/// What a plugin command did.
#[derive(Debug, Clone, PartialEq, Eq)]
pub struct PluginCommandResult {
    pub action: PluginAction,
    pub profile: String,
    pub source: String,
    pub summary: String,
}

pub open spec fn is_profile_char(c: char) -> bool {
    is_ascii_alnum(c) || c == '-' || c == '_'
}

/// A profile name: 1..=64 bytes of ASCII letters, digits, `-` and `_`.
pub open spec fn profile_valid(p: Seq<char>) -> bool {
    p.len() > 0 && byte_len(p) <= 64 && all_chars(p, |c: char| is_profile_char(c))
}

pub open spec fn is_source_char(c: char) -> bool {
    c != '\'' && c != '"' && !is_cc(c)
}

/// A plugin source: 1..=1024 bytes, no quotes, no control characters.
pub open spec fn source_valid(s: Seq<char>) -> bool {
    s.len() > 0 && byte_len(s) <= 1024 && all_chars(s, |c: char| is_source_char(c))
}

/// The command a line of user input names, if it is a valid plugin command.
pub open spec fn parse_command_spec(input: Seq<char>) -> Option<
    (PluginAction, Seq<char>, Seq<char>),
> {
    let cmd = trim(input);
    let w = words(cmd);
    if cmd.len() == 0 || byte_len(cmd) > 2048 {
        None
    } else if w.len() != 6 || w[0] != "dsh"@ || w[1] != "plugin"@ || w[2] != "--profile"@ {
        None
    } else {
        match action_spec(w[4]) {
            None => None,
            Some(a) => if profile_valid(w[3]) && source_valid(w[5]) {
                Some((a, w[3], w[5]))
            } else {
                None
            },
        }
    }
}

pub open spec fn invalid_command_fault() -> Fault {
    Fault::DshPlugin("expected: dsh plugin --profile <profile> add|remove <source>"@)
}

/// The error for input that is not one plugin command.
pub fn invalid_command() -> (r: LauncherError)
    ensures
        r@ == invalid_command_fault(),
{
    LauncherError::DshPlugin(
        String::from_str("expected: dsh plugin --profile <profile> add|remove <source>"),
    )
}

proof fn lemma_ascii_byte_len(s: Seq<char>)
    requires
        forall|i: int| 0 <= i < s.len() ==> (s[i] as u32) < 0x80,
    ensures
        byte_len(s) == s.len(),
    decreases s.len(),
{
    if s.len() > 0 {
        lemma_ascii_byte_len(s.drop_last());
    }
}

/// A profile name is accepted exactly when it has 1 to 64 characters, each
/// an ASCII letter or digit, `-` or `_`.
pub proof fn law_profile_names(p: Seq<char>)
    ensures
        profile_valid(p) <==> (1 <= p.len() <= 64 && forall|i: int|
            0 <= i < p.len() ==> {
                let v = #[trigger] p[i] as u32;
                (0x30 <= v <= 0x39) || (0x41 <= v <= 0x5a) || (0x61 <= v <= 0x7a) || p[i] == '-'
                    || p[i] == '_'
            }),
{
    let f = |c: char| is_profile_char(c);
    let ok = 1 <= p.len() <= 64 && forall|i: int|
        0 <= i < p.len() ==> {
            let v = #[trigger] p[i] as u32;
            (0x30 <= v <= 0x39) || (0x41 <= v <= 0x5a) || (0x61 <= v <= 0x7a) || p[i] == '-'
                || p[i] == '_'
        };
    if ok {
        assert forall|i: int| 0 <= i < p.len() implies #[trigger] f(p[i]) by {
            let v = p[i] as u32;
            assert((0x30 <= v <= 0x39) || (0x41 <= v <= 0x5a) || (0x61 <= v <= 0x7a) || p[i] == '-'
                || p[i] == '_');
        }
        assert forall|i: int| 0 <= i < p.len() implies (p[i] as u32) < 0x80 by {
            let v = p[i] as u32;
            assert((0x30 <= v <= 0x39) || (0x41 <= v <= 0x5a) || (0x61 <= v <= 0x7a) || p[i] == '-'
                || p[i] == '_');
        }
        lemma_ascii_byte_len(p);
        assert(profile_valid(p));
    }
    if profile_valid(p) {
        crate::text::lemma_byte_len_ge_len(p);
        assert forall|i: int| 0 <= i < p.len() implies {
            let v = #[trigger] p[i] as u32;
            (0x30 <= v <= 0x39) || (0x41 <= v <= 0x5a) || (0x61 <= v <= 0x7a) || p[i] == '-'
                || p[i] == '_'
        } by {
            assert(f(p[i]));
        }
    }
}

/// A command whose words are `dsh plugin --profile <p> add|remove <s>` is
/// parsed with that action, profile and source whenever the profile has 1
/// to 64 ASCII letters, digits, `-` and `_` and the source is valid.
pub proof fn law_command_with_plain_profile_parses(input: Seq<char>)
    requires
        trim(input).len() > 0,
        byte_len(trim(input)) <= 2048,
        words(trim(input)).len() == 6,
        words(trim(input))[0] == "dsh"@,
        words(trim(input))[1] == "plugin"@,
        words(trim(input))[2] == "--profile"@,
        action_spec(words(trim(input))[4]) is Some,
        source_valid(words(trim(input))[5]),
        1 <= words(trim(input))[3].len() <= 64,
        forall|i: int|
            0 <= i < words(trim(input))[3].len() ==> {
                let c = #[trigger] words(trim(input))[3][i];
                let v = c as u32;
                (0x30 <= v <= 0x39) || (0x41 <= v <= 0x5a) || (0x61 <= v <= 0x7a) || c == '-'
                    || c == '_'
            },
    ensures
        parse_command_spec(input) == Some(
            (
                action_spec(words(trim(input))[4])->0,
                words(trim(input))[3],
                words(trim(input))[5],
            ),
        ),
{
    law_profile_names(words(trim(input))[3]);
}

fn profile_chars_valid(p: &Vec<char>) -> (r: bool)
    ensures
        r == profile_valid(p@),
{
    if p.len() == 0 {
        return false;
    }
    for i in 0..p.len()
        invariant
            forall|k: int| 0 <= k < i ==> is_profile_char(#[trigger] p@[k]),
    {
        let c = p[i];
        let v: u32 = c as u32;
        let ok = (0x30 <= v && v <= 0x39) || (0x41 <= v && v <= 0x5a) || (0x61 <= v && v <= 0x7a)
            || c == '-' || c == '_';
        if !ok {
            assert(!(|c: char| is_profile_char(c))(p@[i as int]));
            return false;
        }
    }
    assert(all_chars(p@, |c: char| is_profile_char(c)));
    proof {
        lemma_ascii_byte_len(p@);
    }
    p.len() <= MAX_PROFILE_LENGTH
}

/// `profile` is a valid profile name.
pub fn is_profile_valid(profile: &str) -> (r: bool)
    ensures
        r == profile_valid(profile@),
{
    profile_chars_valid(&chars_of(profile))
}

fn source_chars_valid(s: &Vec<char>) -> (r: bool)
    ensures
        r == source_valid(s@),
{
    if s.len() == 0 {
        return false;
    }
    if !byte_len_at_most(s, MAX_SOURCE_LENGTH) {
        return false;
    }
    for i in 0..s.len()
        invariant
            forall|k: int| 0 <= k < i ==> is_source_char(#[trigger] s@[k]),
    {
        let c = s[i];
        if c == '\'' || c == '"' || is_control(c) {
            assert(!(|c: char| is_source_char(c))(s@[i as int]));
            return false;
        }
    }
    assert(all_chars(s@, |c: char| is_source_char(c)));
    true
}

/// `source` is a valid plugin source.
pub fn is_source_valid(source: &str) -> (r: bool)
    ensures
        r == source_valid(source@),
{
    source_chars_valid(&chars_of(source))
}

/// Parses one line of user input as a plugin command.
pub fn parse_plugin_command(input: &str) -> (r: Result<PluginCommand, LauncherError>)
    ensures
        match parse_command_spec(input@) {
            Some((a, p, s)) => r matches Ok(c) && c.action == a && c.profile@ == p && c.source@
                == s,
            None => r matches Err(e) && e@ == invalid_command_fault(),
        },
{
    let command = trim_exec(&chars_of(input));
    if command.len() == 0 || !byte_len_at_most(&command, MAX_COMMAND_LENGTH) {
        return Err(invalid_command());
    }
    let parts = split_ws_exec(&command);
    if parts.len() != 6 {
        return Err(invalid_command());
    }
    if !eq(&parts[0], &chars_of("dsh")) || !eq(&parts[1], &chars_of("plugin")) || !eq(
        &parts[2],
        &chars_of("--profile"),
    ) {
        return Err(invalid_command());
    }
    let action_word = string_of(&parts[4]);
    let action = match PluginAction::parse(action_word.as_str()) {
        None => return Err(invalid_command()),
        Some(a) => a,
    };
    if !profile_chars_valid(&parts[3]) || !source_chars_valid(&parts[5]) {
        return Err(invalid_command());
    }
    Ok(PluginCommand { action, profile: string_of(&parts[3]), source: string_of(&parts[5]) })
}


// ---------------------------------------------------------------------------
// Output summaries
// ---------------------------------------------------------------------------

/// What `String::from_utf8_lossy` decodes from bytes.
pub uninterp spec fn lossy_utf8(b: Seq<u8>) -> Seq<char>;

/// `String::from_utf8_lossy`.
#[verifier::external_body]
fn decode_lossy(bytes: &[u8]) -> (r: String)
    ensures
        r@ == lossy_utf8(bytes@),
{
    String::from_utf8_lossy(bytes).into_owned()
}

pub open spec fn keep_output_char(c: char) -> bool {
    !is_cc(c) || c == '\n' || c == '\t'
}

/// The characters of `s` that are not control characters, newlines and tabs kept.
pub open spec fn printable(s: Seq<char>) -> Seq<char>
    decreases s.len(),
{
    if s.len() == 0 {
        seq![]
    } else if keep_output_char(s.last()) {
        printable(s.drop_last()).push(s.last())
    } else {
        printable(s.drop_last())
    }
}

/// Decoded process output without control characters.
pub open spec fn decode_spec(b: Seq<u8>) -> Seq<char> {
    printable(lossy_utf8(b))
}

/// The last `limit` characters of `s`.
pub open spec fn tail_spec(s: Seq<char>, limit: nat) -> Seq<char> {
    if s.len() <= limit {
        s
    } else {
        s.skip(s.len() - limit)
    }
}

/// The first `limit` characters of `s`.
pub open spec fn prefix_spec(s: Seq<char>, limit: nat) -> Seq<char> {
    if s.len() <= limit {
        s
    } else {
        s.take(limit as int)
    }
}

/// Both streams decoded, escaped quotes unescaped, whitespace collapsed,
/// and the last 8192 characters kept.
pub open spec fn compact_spec(stdout: Seq<u8>, stderr: Seq<u8>) -> Seq<char> {
    let text = decode_spec(stdout) + " "@ + decode_spec(stderr);
    let unescaped = replace_all(text, "\\\""@, "\""@);
    tail_spec(join(words(unescaped), " "@), 8192)
}

fn decode_output(bytes: &[u8]) -> (r: Vec<char>)
    ensures
        r@ == decode_spec(bytes@),
{
    let decoded = decode_lossy(bytes);
    let all = chars_of(decoded.as_str());
    let mut r: Vec<char> = Vec::new();
    for i in 0..all.len()
        invariant
            all@ == lossy_utf8(bytes@),
            r@ == printable(all@.take(i as int)),
    {
        let c = all[i];
        assert(all@.take(i + 1).drop_last() =~= all@.take(i as int));
        if !is_control(c) || c == '\n' || c == '\t' {
            r.push(c);
        }
    }
    assert(all@.take(all.len() as int) =~= all@);
    r
}

/// The last `limit` characters of `text`.
pub fn tail_chars(text: &str, limit: usize) -> (r: String)
    ensures
        r@ == tail_spec(text@, limit as nat),
{
    let t = chars_of(text);
    string_of(&tail_vec(&t, limit))
}

fn tail_vec(t: &Vec<char>, limit: usize) -> (r: Vec<char>)
    ensures
        r@ == tail_spec(t@, limit as nat),
{
    if t.len() <= limit {
        let r = slice_of(t, 0, t.len());
        assert(r@ =~= t@);
        r
    } else {
        slice_of(t, t.len() - limit, t.len())
    }
}

/// The first `limit` characters of `text`.
pub fn prefix_chars(text: &str, limit: usize) -> (r: String)
    ensures
        r@ == prefix_spec(text@, limit as nat),
{
    let t = chars_of(text);
    if t.len() <= limit {
        string_of(&t)
    } else {
        string_of(&slice_of(&t, 0, limit))
    }
}

/// Process output as one line: decoded, unescaped, whitespace collapsed, at
/// most 8192 characters from its end.
pub fn compact_output(stdout: &[u8], stderr: &[u8]) -> (r: String)
    ensures
        r@ == compact_spec(stdout@, stderr@),
{
    let mut text = decode_output(stdout);
    text.push(' ');
    let err = decode_output(stderr);
    extend(&mut text, &err);
    assert(text@ =~= decode_spec(stdout@) + " "@ + decode_spec(stderr@)) by {
        reveal_strlit(" ");
    }
    let pattern = chars_of("\\\"");
    let quote = chars_of("\"");
    proof {
        reveal_strlit("\\\"");
    }
    let unescaped = replace_exec(&text, &pattern, &quote);
    let parts = split_ws_exec(&unescaped);
    proof {
        assert(parts@.map_values(|p: Vec<char>| p@) =~= words(unescaped@));
    }
    let joined = join_exec(&parts, &chars_of(" "));
    string_of(&tail_vec(&joined, 8192))
}

/// The markers, in the order they are looked for, that point at the part of
/// pnpm output worth showing.
pub open spec fn marker(i: int) -> Seq<char> {
    if i == 0 {
        "ERR_PNPM_GIT_DEP_PREPARE_NOT_ALLOWED"@
    } else if i == 1 {
        "git-hosted package"@
    } else if i == 2 {
        "Ignored build scripts"@
    } else {
        "ERR_PNPM_"@
    }
}

/// The first marker (in marker order) that occurs in `t`, with its index.
pub open spec fn first_marker(t: Seq<char>) -> Option<int> {
    if contains(t, marker(0)) {
        find(t, marker(0))
    } else if contains(t, marker(1)) {
        find(t, marker(1))
    } else if contains(t, marker(2)) {
        find(t, marker(2))
    } else if contains(t, marker(3)) {
        find(t, marker(3))
    } else {
        None
    }
}

/// The byte offset 24 bytes before character `ci`, saturating at 0.
pub open spec fn cut_byte(t: Seq<char>, ci: int) -> int {
    let b = byte_len(t.take(ci)) as int;
    if b >= 24 {
        b - 24
    } else {
        0
    }
}

/// Character `k` starts at the byte offset 24 bytes before character `ci`.
pub open spec fn is_cut(t: Seq<char>, ci: int, k: int) -> bool {
    0 <= k <= ci && byte_len(t.take(k)) == cut_byte(t, ci)
}

/// Focusing `t` is defined: when a marker occurs, the offset 24 bytes before
/// it falls on a character boundary (otherwise slicing there would panic).
pub open spec fn focus_defined(t: Seq<char>) -> bool {
    match first_marker(t) {
        Some(ci) => exists|k: int| is_cut(t, ci, k),
        None => true,
    }
}

/// What `focus_plugin_output` keeps of `t`: from 24 bytes before the first
/// marker, or else the last 280 characters.
pub open spec fn focus_spec(t: Seq<char>, r: Seq<char>) -> bool {
    match first_marker(t) {
        Some(ci) => exists|k: int| is_cut(t, ci, k) && r == t.skip(k),
        None => r == tail_spec(t, 280),
    }
}

proof fn lemma_byte_len_take_step(t: Seq<char>, k: int)
    requires
        0 < k <= t.len(),
    ensures
        byte_len(t.take(k)) == byte_len(t.take(k - 1)) + utf8_width(t[k - 1]),
{
    assert(t.take(k).drop_last() =~= t.take(k - 1));
}

proof fn lemma_byte_len_take_mono(t: Seq<char>, j: int, k: int)
    requires
        0 <= j < k <= t.len(),
    ensures
        byte_len(t.take(j)) < byte_len(t.take(k)),
    decreases k - j,
{
    lemma_byte_len_take_step(t, k);
    if j < k - 1 {
        lemma_byte_len_take_mono(t, j, k - 1);
    }
}

/// Two cut points of one text are the same point.
pub proof fn lemma_cut_unique(t: Seq<char>, ci: int, k1: int, k2: int)
    requires
        ci <= t.len(),
        is_cut(t, ci, k1),
        is_cut(t, ci, k2),
    ensures
        k1 == k2,
{
    if k1 < k2 {
        lemma_byte_len_take_mono(t, k1, k2);
    } else if k2 < k1 {
        lemma_byte_len_take_mono(t, k2, k1);
    }
}

fn marker_exec(i: usize) -> (r: Vec<char>)
    requires
        i < 4,
    ensures
        r@ == marker(i as int),
{
    if i == 0 {
        chars_of("ERR_PNPM_GIT_DEP_PREPARE_NOT_ALLOWED")
    } else if i == 1 {
        chars_of("git-hosted package")
    } else if i == 2 {
        chars_of("Ignored build scripts")
    } else {
        chars_of("ERR_PNPM_")
    }
}

fn first_marker_exec(t: &Vec<char>) -> (r: Option<usize>)
    ensures
        match first_marker(t@) {
            Some(ci) => r matches Some(x) && x == ci,
            None => r is None,
        },
{
    let mut i: usize = 0;
    while i < 4
        invariant
            i <= 4,
            forall|j: int| 0 <= j < i ==> !contains(t@, #[trigger] marker(j)),
        decreases 4 - i,
    {
        let m = marker_exec(i);
        match find_exec(t, &m) {
            Some(k) => {
                assert(contains(t@, marker(i as int)));
                return Some(k);
            },
            None => {},
        }
        i += 1;
    }
    None
}

/// The character index where the text 24 bytes before `ci` starts, if that
/// offset is a character boundary.
fn cut_index(t: &Vec<char>, ci: usize) -> (r: Option<usize>)
    requires
        ci <= t.len(),
    ensures
        match r {
            Some(k) => is_cut(t@, ci as int, k as int),
            None => forall|k: int| !is_cut(t@, ci as int, k),
        },
{
    let mut k: usize = ci;
    let mut budget: usize = 24;
    while k > 0 && len_utf8(t[k - 1]) <= budget
        invariant
            k <= ci <= t.len(),
            budget <= 24,
            byte_len(t@.take(k as int)) + (24 - budget) == byte_len(t@.take(ci as int)),
        decreases k,
    {
        proof {
            lemma_byte_len_take_step(t@, k as int);
        }
        budget = budget - len_utf8(t[k - 1]);
        k -= 1;
    }
    if budget == 0 || k == 0 {
        proof {
            if k == 0 {
                assert(t@.take(0) =~= Seq::<char>::empty());
            }
        }
        Some(k)
    } else {
        proof {
            lemma_byte_len_take_step(t@, k as int);
            assert forall|j: int| !is_cut(t@, ci as int, j) by {
                if is_cut(t@, ci as int, j) {
                    if j >= k {
                        if j > k {
                            lemma_byte_len_take_mono(t@, k as int, j);
                        }
                    } else {
                        if j < k - 1 {
                            lemma_byte_len_take_mono(t@, j, k - 1);
                        }
                    }
                }
            }
        }
        None
    }
}

/// Whether `focus_plugin_output` is defined for `text` (callers test this
/// before summarizing untrusted output).
pub fn summary_is_defined(text: &str) -> (r: bool)
    ensures
        r == focus_defined(text@),
{
    let t = chars_of(text);
    match first_marker_exec(&t) {
        None => true,
        Some(ci) => {
            proof {
                lemma_find_from_props(t@, marker_of_index(t@), 0);
            }
            cut_index(&t, ci).is_some()
        },
    }
}

/// The marker that `first_marker` found.
pub open spec fn marker_of_index(t: Seq<char>) -> Seq<char> {
    if contains(t, marker(0)) {
        marker(0)
    } else if contains(t, marker(1)) {
        marker(1)
    } else if contains(t, marker(2)) {
        marker(2)
    } else {
        marker(3)
    }
}

/// The part of plugin output worth showing.
pub fn focus_plugin_output(text: &str) -> (r: String)
    requires
        focus_defined(text@),
    ensures
        focus_spec(text@, r@),
{
    let t = chars_of(text);
    match first_marker_exec(&t) {
        None => string_of(&tail_vec(&t, SUMMARY_LIMIT)),
        Some(ci) => {
            proof {
                lemma_find_from_props(t@, marker_of_index(t@), 0);
            }
            match cut_index(&t, ci) {
                Some(k) => string_of(&slice_of(&t, k, t.len())),
                None => {
                    assert(false);
                    String::new()
                },
            }
        },
    }
}

pub open spec fn summary_spec(compact: Seq<char>, r: Seq<char>) -> bool {
    if compact.len() == 0 {
        r == "操作已完成。"@
    } else {
        exists|f: Seq<char>| focus_spec(compact, f) && r == prefix_spec(f, 280)
    }
}

/// A short, user-facing summary of compacted plugin output.
pub fn summarize_output(compact: &str) -> (r: String)
    requires
        focus_defined(compact@),
    ensures
        summary_spec(compact@, r@),
{
    if compact.is_empty() {
        return String::from_str("操作已完成。");
    }
    let focused = focus_plugin_output(compact);
    prefix_chars(focused.as_str(), SUMMARY_LIMIT)
}

/// The summary of a command's raw output.
pub fn output_summary(stdout: &[u8], stderr: &[u8]) -> (r: String)
    requires
        focus_defined(compact_spec(stdout@, stderr@)),
    ensures
        summary_spec(compact_spec(stdout@, stderr@), r@),
{
    let compact = compact_output(stdout, stderr);
    summarize_output(compact.as_str())
}

/// The summary of a command's raw output, or `None` for output whose
/// summary would cut inside a character.
pub fn checked_output_summary(stdout: &[u8], stderr: &[u8]) -> (r: Option<String>)
    ensures
        focus_defined(compact_spec(stdout@, stderr@)) ==> (r matches Some(x) && summary_spec(
            compact_spec(stdout@, stderr@),
            x@,
        )),
        !focus_defined(compact_spec(stdout@, stderr@)) ==> r is None,
{
    let compact = compact_output(stdout, stderr);
    if summary_is_defined(compact.as_str()) {
        Some(summarize_output(compact.as_str()))
    } else {
        None
    }
}

// ---------------------------------------------------------------------------
// Blocked builds
// ---------------------------------------------------------------------------

pub open spec fn is_package_char(c: char) -> bool {
    is_ascii_alnum(c) || c == '@' || c == '/' || c == '_' || c == '.' || c == '-'
}

/// An npm package name as an `allowBuilds` key: 1..=128 bytes of ASCII
/// letters, digits and `@ / _ . -`.
pub open spec fn package_name_valid(n: Seq<char>) -> bool {
    n.len() > 0 && n.len() <= 128 && all_chars(n, |c: char| is_package_char(c))
}

pub open spec fn is_segment_char(c: char) -> bool {
    is_ascii_alnum(c) || c == '_' || c == '.' || c == '-'
}

/// A GitHub owner or repository name: 1..=100 ASCII letters, digits, `_ . -`.
pub open spec fn segment_valid(n: Seq<char>) -> bool {
    n.len() > 0 && n.len() <= 100 && all_chars(n, |c: char| is_segment_char(c))
}

/// Output that says pnpm refused to run build scripts.
pub open spec fn blocked_spec(o: Seq<char>) -> bool {
    contains(o, "ERR_PNPM_GIT_DEP_PREPARE_NOT_ALLOWED"@) || contains(o, "ERR_PNPM_IGNORED_BUILDS"@)
        || contains(o, "needs to execute build scripts"@) || contains(o, "Ignored build scripts"@)
}

/// `name@version` without its version (an `@` at index 0 is a scope).
pub open spec fn strip_version(x: Seq<char>) -> Seq<char> {
    match rfind(x, '@') {
        Some(i) => if i > 0 {
            x.take(i)
        } else {
            x
        },
        None => x,
    }
}

/// The package pnpm names in `git-hosted package "<name>@<version>"`.
pub open spec fn git_prepare_spec(o: Seq<char>) -> Option<Seq<char>> {
    match find(o, "git-hosted package \""@) {
        None => None,
        Some(i) => {
            let raw = trim(split_char(o.skip(i + 20), '"')[0]);
            let name = strip_version(raw);
            if raw.len() == 0 {
                None
            } else if package_name_valid(name) {
                Some(name)
            } else {
                None
            }
        },
    }
}

pub open spec fn dot_pred() -> spec_fn(char) -> bool {
    |c: char| c == '.'
}

/// The package name one comma-separated piece of the ignored list names.
pub open spec fn ignored_name(chunk: Seq<char>) -> Seq<char> {
    let t = trim(chunk);
    strip_version(t.take(t.len() - trail_len(t, dot_pred())))
}

/// Valid names of `chunks[i..]` added in turn to `acc` without duplicates.
pub open spec fn ignored_fold(chunks: Seq<Seq<char>>, i: int, acc: Seq<Seq<char>>) -> Seq<
    Seq<char>,
>
    decreases chunks.len() - i,
{
    if i >= chunks.len() || i < 0 {
        acc
    } else {
        let n = ignored_name(chunks[i]);
        ignored_fold(
            chunks,
            i + 1,
            if package_name_valid(n) {
                push_unique(acc, n)
            } else {
                acc
            },
        )
    }
}

/// The list after `Ignored build scripts...:` up to ` ERR_` or ` dsh:`.
pub open spec fn ignored_list(o: Seq<char>) -> Seq<char> {
    match find(o, "Ignored build scripts"@) {
        None => seq![],
        Some(idx) => {
            let seg = o.skip(idx);
            let rest = match find(seg, seq![':']) {
                Some(j) => seg.skip(j + 1),
                None => seq![],
            };
            let end = match find(rest, " ERR_"@) {
                Some(e) => e,
                None => match find(rest, " dsh:"@) {
                    Some(e) => e,
                    None => rest.len() as int,
                },
            };
            rest.take(end)
        },
    }
}

/// The packages pnpm lists as having ignored build scripts, without duplicates.
pub open spec fn ignored_builds_spec(o: Seq<char>) -> Seq<Seq<char>> {
    if contains(o, "Ignored build scripts"@) {
        ignored_fold(split_char(ignored_list(o), ','), 0, seq![])
    } else {
        seq![]
    }
}

/// A GitHub source with its prefix removed.
pub open spec fn github_rest(source: Seq<char>) -> Option<Seq<char>> {
    if starts_with(source, "github:"@) {
        Some(source.skip(7))
    } else if starts_with(source, "git+https://github.com/"@) {
        Some(source.skip(23))
    } else if starts_with(source, "https://github.com/"@) {
        Some(source.skip(19))
    } else {
        None
    }
}

pub open spec fn is_repo_end(c: char) -> bool {
    c == '#' || c == '&' || c == '?'
}

/// Index of the first `#`, `&` or `?` at or after `i`, else `s.len()`.
pub open spec fn repo_end_from(s: Seq<char>, i: int) -> int
    decreases s.len() - i,
{
    if i >= s.len() || i < 0 {
        s.len() as int
    } else if is_repo_end(s[i]) {
        i
    } else {
        repo_end_from(s, i + 1)
    }
}

/// The `owner` and `name` of a GitHub plugin source.
pub open spec fn github_parts(source: Seq<char>) -> Option<(Seq<char>, Seq<char>)> {
    match github_rest(source) {
        None => None,
        Some(rest) => {
            let rest2 = if ends_with(rest, ".git"@) {
                rest.take(rest.len() - 4)
            } else {
                rest
            };
            let repo = rest2.take(repo_end_from(rest2, 0));
            let parts = split_char(repo, '/');
            if parts.len() == 2 && segment_valid(parts[0]) && segment_valid(parts[1]) {
                Some((parts[0], parts[1]))
            } else {
                None
            }
        },
    }
}

/// The keys `allowBuilds` needs for blocked output: the git-hosted package,
/// then the ignored packages, else the source's GitHub repository name.
pub open spec fn blocked_keys_spec(o: Seq<char>, source: Seq<char>) -> Seq<Seq<char>> {
    if !blocked_spec(o) {
        seq![]
    } else {
        let k1 = match git_prepare_spec(o) {
            Some(n) => seq![n],
            None => seq![],
        };
        let k2 = ignored_fold(
            if contains(o, "Ignored build scripts"@) {
                split_char(ignored_list(o), ',')
            } else {
                seq![]
            },
            0,
            k1,
        );
        if k2.len() == 0 {
            match github_parts(source) {
                Some((_, name)) => seq![name],
                None => seq![],
            }
        } else {
            k2
        }
    }
}

/// Each name listed once.
pub open spec fn names_distinct(v: Seq<Seq<char>>) -> bool {
    forall|a: int, b: int| 0 <= a < b < v.len() ==> #[trigger] v[a] != #[trigger] v[b]
}

/// Each name a valid package name.
pub open spec fn names_valid(v: Seq<Seq<char>>) -> bool {
    forall|a: int| 0 <= a < v.len() ==> package_name_valid(#[trigger] v[a])
}

proof fn lemma_ignored_fold(chunks: Seq<Seq<char>>, j: int, acc: Seq<Seq<char>>)
    requires
        0 <= j <= chunks.len(),
    ensures
        forall|x: Seq<char>| acc.contains(x) ==> #[trigger] ignored_fold(chunks, j, acc).contains(x),
        forall|i: int|
            j <= i < chunks.len() && package_name_valid(ignored_name(#[trigger] chunks[i]))
                ==> ignored_fold(chunks, j, acc).contains(ignored_name(chunks[i])),
        ignored_fold(chunks, j, acc).len() >= acc.len(),
        forall|k: int| 0 <= k < acc.len() ==> #[trigger] ignored_fold(chunks, j, acc)[k] == acc[k],
        names_valid(acc) ==> names_valid(ignored_fold(chunks, j, acc)),
        names_distinct(acc) ==> names_distinct(ignored_fold(chunks, j, acc)),
    decreases chunks.len() - j,
{
    if j < chunks.len() {
        let n = ignored_name(chunks[j]);
        let acc2 = if package_name_valid(n) {
            push_unique(acc, n)
        } else {
            acc
        };
        assert forall|x: Seq<char>| acc.contains(x) implies acc2.contains(x) by {
            if package_name_valid(n) && !acc.contains(n) {
                let k = choose|k: int| 0 <= k < acc.len() && acc[k] == x;
                assert(acc.push(n)[k] == x);
            }
        }
        if package_name_valid(n) && !acc.contains(n) {
            assert(acc.push(n)[acc.len() as int] == n);
        }
        lemma_ignored_fold(chunks, j + 1, acc2);
        let r = ignored_fold(chunks, j, acc);
        assert(r == ignored_fold(chunks, j + 1, acc2));
        assert forall|x: Seq<char>| acc.contains(x) implies #[trigger] r.contains(x) by {
            assert(acc2.contains(x));
        }
        assert forall|i: int|
            j <= i < chunks.len() && package_name_valid(ignored_name(#[trigger] chunks[i]))
            implies r.contains(ignored_name(chunks[i])) by {
            if i == j {
                assert(acc2.contains(n));
            }
        }
        assert(acc2.len() >= acc.len());
        assert forall|k: int| 0 <= k < acc.len() implies #[trigger] r[k] == acc[k] by {
            assert(acc2[k] == acc[k]);
            assert(r[k] == acc2[k]);
        }
        if names_valid(acc) {
            assert(names_valid(acc2));
        }
        if names_distinct(acc) {
            if package_name_valid(n) && !acc.contains(n) {
                assert forall|a: int, b: int| 0 <= a < b < acc2.len() implies #[trigger] acc2[a]
                    != #[trigger] acc2[b] by {
                    if b == acc.len() {
                        assert(acc2[a] == acc[a]);
                    } else {
                        assert(acc2[a] == acc[a] && acc2[b] == acc[b]);
                    }
                }
            }
            assert(names_distinct(acc2));
        }
    }
}

/// The keys a blocked install needs: none for output that shows no blocked
/// build; otherwise valid package names, each once, the git-hosted package
/// first, then the ignored ones, and the source's GitHub repository name
/// only when output names no package.
pub proof fn law_blocked_keys_shape(o: Seq<char>, source: Seq<char>)
    ensures
        !blocked_spec(o) ==> blocked_keys_spec(o, source).len() == 0,
        names_valid(blocked_keys_spec(o, source)),
        names_distinct(blocked_keys_spec(o, source)),
        blocked_spec(o) && git_prepare_spec(o) is Some ==> blocked_keys_spec(o, source).len() > 0
            && blocked_keys_spec(o, source)[0] == git_prepare_spec(o)->0,
        blocked_spec(o) && git_prepare_spec(o) is None && !contains(o, "Ignored build scripts"@)
            ==> blocked_keys_spec(o, source) == match github_parts(source) {
            Some((_, name)) => seq![name],
            None => Seq::<Seq<char>>::empty(),
        },
{
    if blocked_spec(o) {
        let k1 = match git_prepare_spec(o) {
            Some(n) => seq![n],
            None => Seq::<Seq<char>>::empty(),
        };
        let chunks = if contains(o, "Ignored build scripts"@) {
            split_char(ignored_list(o), ',')
        } else {
            Seq::<Seq<char>>::empty()
        };
        lemma_ignored_fold(chunks, 0, k1);
        let k2 = ignored_fold(chunks, 0, k1);
        if k2.len() == 0 {
            match github_parts(source) {
                Some((owner, name)) => {
                    let rest = github_rest(source)->0;
                    let rest2 = if ends_with(rest, ".git"@) {
                        rest.take(rest.len() - 4)
                    } else {
                        rest
                    };
                    let parts = split_char(rest2.take(repo_end_from(rest2, 0)), '/');
                    assert(segment_valid(parts[1]));
                    assert(name == parts[1]);
                    assert forall|i: int| 0 <= i < name.len() implies #[trigger] is_package_char(
                        name[i],
                    ) by {
                        let f = |c: char| is_segment_char(c);
                        assert(all_chars(name, f));
                        assert(f(name[i]));
                    }
                    let g = |c: char| is_package_char(c);
                    assert forall|i: int| 0 <= i < name.len() implies #[trigger] g(name[i]) by {
                        assert(is_package_char(name[i]));
                    }
                    assert(package_name_valid(name));
                    assert(names_valid(seq![name]));
                },
                None => {},
            }
        }
        if !contains(o, "Ignored build scripts"@) && git_prepare_spec(o) is None {
            assert(k2 == k1);
        }
    }
}

proof fn lemma_trim_space_prefix(x: Seq<char>)
    requires
        x.len() > 0,
        !is_ws(x[0]),
        !is_ws(x.last()),
    ensures
        trim(" "@ + x) == x,
{
    reveal_strlit(" ");
    let l = " "@ + x;
    crate::text::lemma_lead_len_run(l, ws_pred(), 0, 1);
    assert(l.skip(0) =~= l);
    assert(l[1] == x[0]);
    let ts = trim_start(l);
    assert(ts =~= x);
    crate::text::lemma_trail_len_run(ts, ws_pred(), ts.len() as int, ts.len() as int);
    assert(ts.take(ts.len() as int) =~= ts);
}

proof fn lemma_no_trailing_dots(t: Seq<char>)
    requires
        t.len() > 0,
        t.last() != '.',
    ensures
        t.take(t.len() - trail_len(t, dot_pred())) == t,
{
    assert(t.take(t.len() as int) =~= t);
}

/// One entry of pnpm's ignored list, ` <name>`, ` <name>.` (the list's end)
/// or ` <name>@<version>`, names the package `<name>`.
pub proof fn law_ignored_entry_names_its_package(n: Seq<char>, v: Seq<char>)
    requires
        package_name_valid(n),
        forall|k: int| 0 < k < n.len() ==> #[trigger] n[k] != '@',
        n.last() != '.',
        v.len() > 0,
        forall|k: int| 0 <= k < v.len() ==> #[trigger] v[k] != '@' && !is_ws(v[k]),
        v.last() != '.',
    ensures
        ignored_name(" "@ + n) == n,
        ignored_name(" "@ + n + "."@) == n,
        ignored_name(" "@ + n + "@"@ + v) == n,
{
    reveal_strlit(".");
    reveal_strlit("@");
    lemma_package_chars(n);
    assert(!is_ws(n[0]) && !is_ws(n.last()));
    // Strip the version: the last `@` is the one before it, or a scope's.
    crate::text::lemma_rfind_props(n, '@', n.len() as int);
    assert(strip_version(n) == n) by {
        if rfind(n, '@') is Some {
            let i = rfind(n, '@')->0;
            assert(i == 0);
        }
    }
    // ` <name>`
    lemma_trim_space_prefix(n);
    lemma_no_trailing_dots(n);
    // ` <name>.`
    let nd = n + "."@;
    assert(nd.len() > 0 && nd[0] == n[0] && nd.last() == '.');
    lemma_trim_space_prefix(nd);
    let f = dot_pred();
    assert(f(nd.last()));
    assert(nd.drop_last() =~= n);
    assert(!f(n.last()));
    assert(trail_len(nd, f) == 1 + trail_len(n, f));
    assert(trail_len(n, f) == 0);
    assert(nd.take(nd.len() - 1) =~= n);
    assert(" "@ + n + "."@ =~= " "@ + nd);
    assert(trim(" "@ + n + "."@) == nd);
    // ` <name>@<version>`
    let nv = n + "@"@ + v;
    assert(nv[0] == n[0] && nv.last() == v.last());
    lemma_trim_space_prefix(nv);
    lemma_no_trailing_dots(nv);
    crate::text::lemma_rfind_props(nv, '@', nv.len() as int);
    assert(nv[n.len() as int] == '@');
    assert forall|j: int| n.len() < j < nv.len() implies nv[j] != '@' by {
        assert(nv[j] == v[j - n.len() - 1]);
    }
    assert(rfind(nv, '@') == Some(n.len() as int)) by {
        let r = rfind(nv, '@');
        if r != Some(n.len() as int) {
            if r is Some {
                let i = r->0;
                assert(i < n.len() as int ==> nv[i] == n[i]);
            }
        }
    }
    assert(nv.take(n.len() as int) =~= n);
    assert(" "@ + n + "@"@ + v =~= " "@ + nv);
    assert(trim(" "@ + n + "@"@ + v) == nv);
    assert(strip_version(nv) == n);
}

/// Every comma-separated entry of pnpm's `Ignored build scripts:` list that
/// names a valid package is among the keys a blocked install needs.
pub proof fn law_blocked_keys_cover_ignored_list(o: Seq<char>, source: Seq<char>, i: int)
    requires
        contains(o, "Ignored build scripts"@),
        0 <= i < split_char(ignored_list(o), ',').len(),
        package_name_valid(ignored_name(split_char(ignored_list(o), ',')[i])),
    ensures
        blocked_keys_spec(o, source).contains(ignored_name(split_char(ignored_list(o), ',')[i])),
{
    let chunks = split_char(ignored_list(o), ',');
    let k1 = match git_prepare_spec(o) {
        Some(n) => seq![n],
        None => Seq::<Seq<char>>::empty(),
    };
    lemma_ignored_fold(chunks, 0, k1);
    let n = ignored_name(chunks[i]);
    assert(ignored_fold(chunks, 0, k1).contains(n));
    assert(ignored_fold(chunks, 0, k1).len() > 0);
}

pub open spec fn strings_view(v: Vec<String>) -> Seq<Seq<char>> {
    v@.map_values(|s: String| s@)
}

pub open spec fn vecs_view(v: Vec<Vec<char>>) -> Seq<Seq<char>> {
    v@.map_values(|s: Vec<char>| s@)
}

fn package_chars_valid(n: &Vec<char>) -> (r: bool)
    ensures
        r == package_name_valid(n@),
{
    if n.len() == 0 || n.len() > 128 {
        return false;
    }
    for i in 0..n.len()
        invariant
            forall|k: int| 0 <= k < i ==> is_package_char(#[trigger] n@[k]),
    {
        let c = n[i];
        let v: u32 = c as u32;
        let ok = (0x30 <= v && v <= 0x39) || (0x41 <= v && v <= 0x5a) || (0x61 <= v && v <= 0x7a)
            || c == '_' || c == '.' || c == '-' || c == '@' || c == '/';
        if !ok {
            assert(!(|c: char| is_package_char(c))(n@[i as int]));
            return false;
        }
    }
    assert(all_chars(n@, |c: char| is_package_char(c)));
    true
}

fn segment_chars_valid(n: &Vec<char>) -> (r: bool)
    ensures
        r == segment_valid(n@),
{
    if n.len() == 0 || n.len() > 100 {
        return false;
    }
    for i in 0..n.len()
        invariant
            forall|k: int| 0 <= k < i ==> is_segment_char(#[trigger] n@[k]),
    {
        let c = n[i];
        let v: u32 = c as u32;
        let ok = (0x30 <= v && v <= 0x39) || (0x41 <= v && v <= 0x5a) || (0x61 <= v && v <= 0x7a)
            || c == '_' || c == '.' || c == '-';
        if !ok {
            assert(!(|c: char| is_segment_char(c))(n@[i as int]));
            return false;
        }
    }
    assert(all_chars(n@, |c: char| is_segment_char(c)));
    true
}

/// `name` is a package name that may stand as an `allowBuilds` key.
pub fn is_package_name(name: &str) -> (r: bool)
    ensures
        r == package_name_valid(name@),
{
    package_chars_valid(&chars_of(name))
}

/// `value` is a GitHub owner or repository name.
pub fn is_github_segment(value: &str) -> (r: bool)
    ensures
        r == segment_valid(value@),
{
    segment_chars_valid(&chars_of(value))
}

/// `key` may stand in `allowBuilds`.
pub fn is_allow_builds_key(key: &str) -> (r: bool)
    ensures
        r == package_name_valid(key@),
{
    is_package_name(key)
}

fn blocked_chars(o: &Vec<char>) -> (r: bool)
    ensures
        r == blocked_spec(o@),
{
    contains_exec(o, &chars_of("ERR_PNPM_GIT_DEP_PREPARE_NOT_ALLOWED")) || contains_exec(
        o,
        &chars_of("ERR_PNPM_IGNORED_BUILDS"),
    ) || contains_exec(o, &chars_of("needs to execute build scripts")) || contains_exec(
        o,
        &chars_of("Ignored build scripts"),
    )
}

/// The output says pnpm refused to run build scripts.
pub fn is_blocked_build(output: &str) -> (r: bool)
    ensures
        r == blocked_spec(output@),
{
    blocked_chars(&chars_of(output))
}

fn strip_version_exec(x: &Vec<char>) -> (r: Vec<char>)
    ensures
        r@ == strip_version(x@),
{
    match rfind_exec(x, '@') {
        Some(i) => {
            proof {
                lemma_rfind_props(x@, '@', x@.len() as int);
            }
            if i > 0 {
                slice_of(x, 0, i)
            } else {
                slice_of(x, 0, x.len())
            }
        },
        None => slice_of(x, 0, x.len()),
    }
}

/// `v` with `x` appended unless it is already there.
pub fn push_unique_exec(v: &mut Vec<Vec<char>>, x: Vec<char>)
    ensures
        vecs_view(*final(v)) == push_unique(vecs_view(*old(v)), x@),
{
    for i in 0..v.len()
        invariant
            forall|k: int| 0 <= k < i ==> v@[k]@ != x@,
    {
        if eq(&v[i], &x) {
            assert(vecs_view(*v)[i as int] == x@);
            assert(vecs_view(*v).contains(x@));
            return;
        }
    }
    let ghost before = vecs_view(*v);
    assert(!before.contains(x@)) by {
        if before.contains(x@) {
            let k = choose|k: int| 0 <= k < before.len() && before[k] == x@;
            assert(v@[k]@ == x@);
        }
    }
    v.push(x);
    assert(vecs_view(*v) =~= before.push(x@));
}

fn git_prepare_chars(o: &Vec<char>) -> (r: Option<Vec<char>>)
    ensures
        match git_prepare_spec(o@) {
            Some(n) => r matches Some(x) && x@ == n,
            None => r is None,
        },
{
    let m = chars_of("git-hosted package \"");
    proof {
        reveal_strlit("git-hosted package \"");
    }
    let i = match find_exec(o, &m) {
        None => return None,
        Some(i) => i,
    };
    proof {
        lemma_find_from_props(o@, m@, 0);
    }
    let n = o.len();
    let seg = slice_of(o, i + 20, n);
    assert(seg@ =~= o@.skip(i + 20));
    let pieces = split_char_exec(&seg, '"');
    proof {
        lemma_split_char_nonempty(seg@, '"');
    }
    let raw = trim_exec(&pieces[0]);
    if raw.len() == 0 {
        return None;
    }
    let name = strip_version_exec(&raw);
    if package_chars_valid(&name) {
        Some(name)
    } else {
        None
    }
}

pub proof fn lemma_split_char_nonempty(s: Seq<char>, c: char)
    ensures
        split_char(s, c).len() > 0,
{
    match find(s, seq![c]) {
        None => {},
        Some(i) => {
            lemma_find_from_props(s, seq![c], 0);
        },
    }
}

/// The package named in `git-hosted package "<name>@<version>"`, if valid.
pub fn parse_git_prepare_package(output: &str) -> (r: Option<String>)
    ensures
        match git_prepare_spec(output@) {
            Some(n) => r matches Some(x) && x@ == n,
            None => r is None,
        },
{
    match git_prepare_chars(&chars_of(output)) {
        Some(n) => Some(string_of(&n)),
        None => None,
    }
}

fn ignored_name_exec(chunk: &Vec<char>) -> (r: Vec<char>)
    ensures
        r@ == ignored_name(chunk@),
{
    let t = trim_exec(chunk);
    let mut j: usize = t.len();
    while j > 0 && t[j - 1] == '.'
        invariant
            j <= t.len(),
            forall|k: int| j <= k < t@.len() ==> #[trigger] dot_pred()(t@[k]),
        decreases j,
    {
        j -= 1;
    }
    proof {
        crate::text::lemma_trail_len_run(t@, dot_pred(), j as int, t@.len() as int);
        assert(t@.take(t@.len() as int) =~= t@);
    }
    strip_version_exec(&slice_of(&t, 0, j))
}

fn ignored_fold_exec(chunks: &Vec<Vec<char>>, acc: &mut Vec<Vec<char>>)
    ensures
        vecs_view(*final(acc)) == ignored_fold(vecs_view(*chunks), 0, vecs_view(*old(acc))),
{
    let ghost cv = vecs_view(*chunks);
    for i in 0..chunks.len()
        invariant
            cv == vecs_view(*chunks),
            ignored_fold(cv, i as int, vecs_view(*acc)) == ignored_fold(
                cv,
                0,
                vecs_view(*old(acc)),
            ),
    {
        let n = ignored_name_exec(&chunks[i]);
        if package_chars_valid(&n) {
            push_unique_exec(acc, n);
        }
    }
}

fn ignored_list_exec(o: &Vec<char>) -> (r: Vec<char>)
    ensures
        r@ == ignored_list(o@),
{
    let idx = match find_exec(o, &chars_of("Ignored build scripts")) {
        None => return Vec::new(),
        Some(i) => i,
    };
    proof {
        lemma_find_from_props(o@, "Ignored build scripts"@, 0);
    }
    let n = o.len();
    let seg = slice_of(o, idx, n);
    assert(seg@ =~= o@.skip(idx as int));
    let rest = match find_char(&seg, ':') {
        Some(j) => {
            proof {
                lemma_find_from_props(seg@, seq![':'], 0);
            }
            let m = seg.len();
            slice_of(&seg, j + 1, m)
        },
        None => Vec::new(),
    };
    assert(rest@ =~= (match find(seg@, seq![':']) {
        Some(j) => seg@.skip(j + 1),
        None => seq![],
    }));
    let end = match find_exec(&rest, &chars_of(" ERR_")) {
        Some(e) => e,
        None => match find_exec(&rest, &chars_of(" dsh:")) {
            Some(e) => e,
            None => rest.len(),
        },
    };
    proof {
        lemma_find_from_props(rest@, " ERR_"@, 0);
        lemma_find_from_props(rest@, " dsh:"@, 0);
    }
    slice_of(&rest, 0, end)
}

/// The packages pnpm reports as having ignored build scripts.
pub fn parse_ignored_builds(output: &str) -> (r: Vec<String>)
    ensures
        strings_view(r) == ignored_builds_spec(output@),
{
    let o = chars_of(output);
    let names = ignored_builds_chars(&o);
    strings_of(&names)
}

fn ignored_builds_chars(o: &Vec<char>) -> (r: Vec<Vec<char>>)
    ensures
        vecs_view(r) == ignored_builds_spec(o@),
{
    let mut names: Vec<Vec<char>> = Vec::new();
    if !contains_exec(o, &chars_of("Ignored build scripts")) {
        assert(vecs_view(names) =~= seq![]);
        return names;
    }
    let list = ignored_list_exec(o);
    let chunks = split_char_exec(&list, ',');
    assert(vecs_view(chunks) =~= split_char(list@, ','));
    assert(vecs_view(names) =~= seq![]);
    ignored_fold_exec(&chunks, &mut names);
    names
}

/// Converts character vectors to strings.
pub fn strings_of(v: &Vec<Vec<char>>) -> (r: Vec<String>)
    ensures
        strings_view(r) == vecs_view(*v),
{
    let mut r: Vec<String> = Vec::new();
    for i in 0..v.len()
        invariant
            strings_view(r) == vecs_view(*v).take(i as int),
    {
        let ghost before = strings_view(r);
        let item = string_of(&v[i]);
        assert(item@ == vecs_view(*v)[i as int]);
        r.push(item);
        assert(strings_view(r) =~= before.push(item@));
        assert(vecs_view(*v).take(i + 1) =~= vecs_view(*v).take(i as int).push(
            vecs_view(*v)[i as int],
        ));
    }
    assert(vecs_view(*v).take(v.len() as int) =~= vecs_view(*v));
    r
}

fn repo_end_exec(s: &Vec<char>) -> (r: usize)
    ensures
        r == repo_end_from(s@, 0),
        r <= s.len(),
{
    let mut i: usize = 0;
    while i < s.len()
        invariant
            i <= s.len(),
            repo_end_from(s@, 0) == repo_end_from(s@, i as int),
        decreases s.len() - i,
    {
        let c = s[i];
        if c == '#' || c == '&' || c == '?' {
            return i;
        }
        i += 1;
    }
    i
}

fn github_parts_exec(source: &Vec<char>) -> (r: Option<(Vec<char>, Vec<char>)>)
    ensures
        match github_parts(source@) {
            Some((o, n)) => r matches Some(x) && x.0@ == o && x.1@ == n,
            None => r is None,
        },
{
    proof {
        reveal_strlit("github:");
        reveal_strlit("git+https://github.com/");
        reveal_strlit("https://github.com/");
        reveal_strlit(".git");
    }
    let n = source.len();
    let rest = if starts_with_exec(source, &chars_of("github:")) {
        slice_of(source, 7, n)
    } else if starts_with_exec(source, &chars_of("git+https://github.com/")) {
        slice_of(source, 23, n)
    } else if starts_with_exec(source, &chars_of("https://github.com/")) {
        slice_of(source, 19, n)
    } else {
        return None;
    };
    assert(github_rest(source@) == Some(rest@));
    let m = rest.len();
    let rest2 = if ends_with_exec(&rest, &chars_of(".git")) {
        slice_of(&rest, 0, m - 4)
    } else {
        slice_of(&rest, 0, m)
    };
    assert(rest2@ =~= (if ends_with(rest@, ".git"@) {
        rest@.take(rest@.len() - 4)
    } else {
        rest@
    }));
    let e = repo_end_exec(&rest2);
    let repo = slice_of(&rest2, 0, e);
    let parts = split_char_exec(&repo, '/');
    if parts.len() != 2 {
        return None;
    }
    if segment_chars_valid(&parts[0]) && segment_chars_valid(&parts[1]) {
        let owner = slice_of(&parts[0], 0, parts[0].len());
        let name = slice_of(&parts[1], 0, parts[1].len());
        assert(owner@ =~= parts@[0]@);
        assert(name@ =~= parts@[1]@);
        Some((owner, name))
    } else {
        None
    }
}

/// `owner/name` of a GitHub plugin source.
pub fn github_repo(source: &str) -> (r: Option<String>)
    ensures
        match github_parts(source@) {
            Some((o, n)) => r matches Some(x) && x@ == o + "/"@ + n,
            None => r is None,
        },
{
    match github_parts_exec(&chars_of(source)) {
        Some((owner, name)) => {
            let mut v = owner;
            v.push('/');
            extend(&mut v, &name);
            proof {
                reveal_strlit("/");
            }
            Some(string_of(&v))
        },
        None => None,
    }
}

/// The repository name of a GitHub plugin source.
pub fn github_repo_name(source: &str) -> (r: Option<String>)
    ensures
        match github_parts(source@) {
            Some((_, n)) => r matches Some(x) && x@ == n,
            None => r is None,
        },
{
    match github_parts_exec(&chars_of(source)) {
        Some((_, name)) => Some(string_of(&name)),
        None => None,
    }
}

/// The `allowBuilds` keys that would let a blocked install run its build scripts.
pub fn blocked_build_keys(output: &str, source: &str) -> (r: Vec<String>)
    ensures
        strings_view(r) == blocked_keys_spec(output@, source@),
{
    let o = chars_of(output);
    if !blocked_chars(&o) {
        let r: Vec<String> = Vec::new();
        assert(strings_view(r) =~= seq![]);
        return r;
    }
    let mut keys: Vec<Vec<char>> = Vec::new();
    match git_prepare_chars(&o) {
        Some(name) => {
            keys.push(name);
        },
        None => {},
    }
    let ghost k1 = vecs_view(keys);
    assert(k1 =~= (match git_prepare_spec(o@) {
        Some(n) => seq![n],
        None => seq![],
    }));
    if contains_exec(&o, &chars_of("Ignored build scripts")) {
        let list = ignored_list_exec(&o);
        let chunks = split_char_exec(&list, ',');
        assert(vecs_view(chunks) =~= split_char(list@, ','));
        ignored_fold_exec(&chunks, &mut keys);
    } else {
        let chunks: Vec<Vec<char>> = Vec::new();
        assert(vecs_view(chunks) =~= seq![]);
        ignored_fold_exec(&chunks, &mut keys);
    }
    if keys.len() == 0 {
        match github_parts_exec(&chars_of(source)) {
            Some((_, name)) => {
                keys.push(name);
                assert(vecs_view(keys) =~= seq![name@]);
            },
            None => {
                assert(vecs_view(keys) =~= seq![]);
            },
        }
    }
    strings_of(&keys)
}

// ---------------------------------------------------------------------------
// pnpm-workspace.yaml `allowBuilds`
// ---------------------------------------------------------------------------

/// A key wrapped in matching single or double quotes, unwrapped.
pub open spec fn unquote(k: Seq<char>) -> Seq<char> {
    if k.len() >= 2 && ((k[0] == '\'' && k.last() == '\'') || (k[0] == '"' && k.last() == '"')) {
        k.subrange(1, k.len() - 1)
    } else {
        k
    }
}

/// One `key: true|false` line of an `allowBuilds` block (an empty value means true).
pub open spec fn parse_entry_spec(line: Seq<char>) -> Option<(Seq<char>, Seq<char>)> {
    let t = trim(line);
    if t.len() == 0 || t[0] == '#' {
        None
    } else {
        match rfind(t, ':') {
            None => None,
            Some(i) => {
                let key = unquote(trim(t.take(i)));
                let value = trim(t.skip(i + 1));
                if (value.len() == 0 || value == "true"@ || value == "false"@)
                    && package_name_valid(key) {
                    Some(
                        (
                            key,
                            if value == "false"@ {
                                "false"@
                            } else {
                                "true"@
                            },
                        ),
                    )
                } else {
                    None
                }
            },
        }
    }
}

pub open spec fn is_yaml_indicator(c: char) -> bool {
    c == '@' || c == '-' || c == '?' || c == ':' || c == ',' || c == '[' || c == ']' || c == '{'
        || c == '}' || c == '#' || c == '&' || c == '*' || c == '!' || c == '|' || c == '>' || c
        == '\'' || c == '"' || c == '%' || c == '`'
}

/// A YAML key, single-quoted when it would otherwise not read back as itself.
pub open spec fn quote_key_spec(k: Seq<char>) -> Seq<char> {
    if (k.len() > 0 && is_yaml_indicator(k[0])) || contains(k, ": "@) || ends_with(k, ":"@) {
        "'"@ + replace_all(k, "'"@, "''"@) + "'"@
    } else {
        k
    }
}

/// The line ending a file uses: `\r\n` if it holds one, else `\n`.
pub open spec fn eol_of(yaml: Seq<char>) -> Seq<char> {
    if contains(yaml, "\r\n"@) {
        "\r\n"@
    } else {
        "\n"@
    }
}

/// Index just after the line that holds index `i`.
pub open spec fn line_end_from(t: Seq<char>, i: int) -> int {
    match find_from(t, seq!['\n'], i) {
        Some(k) => k + 1,
        None => t.len() as int,
    }
}

pub open spec fn crlf_pred() -> spec_fn(char) -> bool {
    |c: char| c == '\r' || c == '\n'
}

/// The line from `i`, without its trailing `\r` and `\n` characters.
pub open spec fn line_at(t: Seq<char>, i: int) -> Seq<char> {
    let raw = t.subrange(i, line_end_from(t, i));
    raw.take(raw.len() - trail_len(raw, crlf_pred()))
}

/// A block goes on over empty and indented lines.
pub open spec fn continues_block(line: Seq<char>) -> bool {
    line.len() == 0 || line[0] == ' ' || line[0] == '\t'
}

/// Where the block whose body runs from `end` ends.
pub open spec fn block_end(t: Seq<char>, end: int) -> int
    decreases t.len() - end,
{
    if end >= t.len() || end < 0 {
        end
    } else {
        let le = line_end_from(t, end);
        if le > end && continues_block(line_at(t, end)) {
            proof {
                lemma_line_end_bound(t, end);
            }
            block_end(t, le)
        } else {
            end
        }
    }
}

/// The `allowBuilds:` blocks from `search` on: (key start, body start, end).
pub open spec fn blocks_from(t: Seq<char>, search: int) -> Seq<(int, int, int)>
    decreases t.len() + 1 - search,
{
    if search < 0 {
        seq![]
    } else {
        match find_from(t, "allowBuilds:"@, search) {
            None => seq![],
            Some(start) => {
                let al = line_end_from(t, start + 12);
                let end = block_end(t, al);
                let next = if end > start + 1 {
                    end
                } else {
                    start + 1
                };
                if next > search {
                    proof {
                        lemma_allow_builds_block_bound(t, search);
                    }
                    seq![(start, al, end)] + blocks_from(t, next)
                } else {
                    seq![]
                }
            },
        }
    }
}

/// The entries of `ls[i..]` added to `m`.
pub open spec fn add_lines(ls: Seq<Seq<char>>, i: int, m: Map<Seq<char>, Seq<char>>) -> Map<
    Seq<char>,
    Seq<char>,
>
    decreases ls.len() - i,
{
    if i >= ls.len() || i < 0 {
        m
    } else {
        add_lines(
            ls,
            i + 1,
            match parse_entry_spec(ls[i]) {
                Some((k, v)) => m.insert(k, v),
                None => m,
            },
        )
    }
}

/// The entries of the blocks `b[j..]` of `t` added to `m`.
pub open spec fn add_blocks(
    t: Seq<char>,
    b: Seq<(int, int, int)>,
    j: int,
    m: Map<Seq<char>, Seq<char>>,
) -> Map<Seq<char>, Seq<char>>
    decreases b.len() - j,
{
    if j >= b.len() || j < 0 {
        m
    } else {
        add_blocks(t, b, j + 1, add_lines(lines(t.subrange(b[j].1, b[j].2)), 0, m))
    }
}

/// The valid keys of `keys[i..]` added to `m` as allowed.
pub open spec fn add_keys(keys: Seq<Seq<char>>, i: int, m: Map<Seq<char>, Seq<char>>) -> Map<
    Seq<char>,
    Seq<char>,
>
    decreases keys.len() - i,
{
    if i >= keys.len() || i < 0 {
        m
    } else {
        add_keys(
            keys,
            i + 1,
            if package_name_valid(keys[i]) {
                m.insert(keys[i], "true"@)
            } else {
                m
            },
        )
    }
}

/// The merged `allowBuilds` entries: those of every existing block, then the new keys.
pub open spec fn merged_map(yaml: Seq<char>, keys: Seq<Seq<char>>) -> Map<Seq<char>, Seq<char>> {
    add_keys(keys, 0, add_blocks(yaml, blocks_from(yaml, 0), 0, Map::empty()))
}

pub open spec fn sorted_keys(s: Seq<(Seq<char>, Seq<char>)>) -> bool {
    forall|i: int, j: int| 0 <= i < j < s.len() ==> seq_lt(#[trigger] s[i].0, #[trigger] s[j].0)
}

/// `s` lists the entries of `m` by increasing key.
pub open spec fn represents(s: Seq<(Seq<char>, Seq<char>)>, m: Map<Seq<char>, Seq<char>>) -> bool {
    &&& sorted_keys(s)
    &&& forall|i: int| 0 <= i < s.len() ==> m.contains_key(#[trigger] s[i].0) && m[s[i].0] == s[i].1
    &&& forall|k: Seq<char>| #[trigger] m.contains_key(k) ==> exists|i: int| 0 <= i < s.len() && s[i].0 == k
}

pub open spec fn entry_line(e: (Seq<char>, Seq<char>)) -> Seq<char> {
    "  "@ + quote_key_spec(e.0) + ": "@ + e.1
}

pub open spec fn block_text(s: Seq<(Seq<char>, Seq<char>)>, eol: Seq<char>) -> Seq<char> {
    "allowBuilds:"@ + eol + join(s.map_values(|e: (Seq<char>, Seq<char>)| entry_line(e)), eol)
        + eol
}

/// The text of `yaml` from `cursor` on with the blocks `b[i..]` left out.
pub open spec fn between(yaml: Seq<char>, b: Seq<(int, int, int)>, i: int, cursor: int) -> Seq<
    char,
>
    decreases b.len() - i,
{
    if i >= b.len() || i < 0 {
        yaml.skip(cursor)
    } else {
        (if b[i].0 > cursor {
            yaml.subrange(cursor, b[i].0)
        } else {
            seq![]
        }) + between(yaml, b, i + 1, b[i].2)
    }
}

/// `yaml` with its `allowBuilds` blocks replaced by one block `bt` where the
/// first one stood, or `bt` appended.
pub open spec fn merge_result(yaml: Seq<char>, bt: Seq<char>) -> Seq<char> {
    let b = blocks_from(yaml, 0);
    let eol = eol_of(yaml);
    if b.len() > 0 {
        let next = yaml.take(b[0].0) + bt + between(yaml, b, 0, b[0].0);
        if ends_with(next, eol) {
            next
        } else {
            next + eol
        }
    } else if yaml.len() == 0 {
        bt
    } else if ends_with(yaml, "\n"@) {
        yaml + bt
    } else {
        yaml + eol + bt
    }
}

pub proof fn lemma_line_end_bound(t: Seq<char>, i: int)
    requires
        0 <= i <= t.len(),
    ensures
        i <= line_end_from(t, i) <= t.len(),
        i < t.len() ==> i < line_end_from(t, i),
{
    lemma_find_from_props(t, seq!['\n'], i);
}

pub proof fn lemma_allow_builds_block_bound(t: Seq<char>, search: int)
    requires
        0 <= search,
        find_from(t, "allowBuilds:"@, search) is Some,
    ensures
        ({
            let start = find_from(t, "allowBuilds:"@, search)->0;
            let al = line_end_from(t, start + 12);
            &&& search <= start
            &&& start + 12 <= al <= block_end(t, al) <= t.len()
        }),
{
    reveal_strlit("allowBuilds:");
    lemma_find_from_props(t, "allowBuilds:"@, search);
    let start = find_from(t, "allowBuilds:"@, search)->0;
    lemma_line_end_bound(t, start + 12);
    lemma_block_end_bound(t, line_end_from(t, start + 12));
}

pub proof fn lemma_block_end_bound(t: Seq<char>, i: int)
    requires
        0 <= i <= t.len(),
    ensures
        i <= block_end(t, i) <= t.len(),
    decreases t.len() - i,
{
    if i < t.len() {
        lemma_line_end_bound(t, i);
        let le = line_end_from(t, i);
        if le > i && continues_block(line_at(t, i)) {
            lemma_block_end_bound(t, le);
        }
    }
}

fn unquote_exec(k: &Vec<char>) -> (r: Vec<char>)
    ensures
        r@ == unquote(k@),
{
    let n = k.len();
    if n >= 2 && ((k[0] == '\'' && k[n - 1] == '\'') || (k[0] == '"' && k[n - 1] == '"')) {
        slice_of(k, 1, n - 1)
    } else {
        slice_of(k, 0, n)
    }
}

fn parse_entry_chars(line: &Vec<char>) -> (r: Option<(Vec<char>, Vec<char>)>)
    ensures
        match parse_entry_spec(line@) {
            Some((k, v)) => r matches Some(x) && x.0@ == k && x.1@ == v,
            None => r is None,
        },
{
    let t = trim_exec(line);
    if t.len() == 0 || t[0] == '#' {
        return None;
    }
    let i = match rfind_exec(&t, ':') {
        None => return None,
        Some(i) => i,
    };
    proof {
        lemma_rfind_props(t@, ':', t@.len() as int);
    }
    let n = t.len();
    let key = unquote_exec(&trim_exec(&slice_of(&t, 0, i)));
    let value = trim_exec(&slice_of(&t, i + 1, n));
    let is_false = eq(&value, &chars_of("false"));
    if (value.len() == 0 || eq(&value, &chars_of("true")) || is_false) && package_chars_valid(&key) {
        let v = if is_false {
            chars_of("false")
        } else {
            chars_of("true")
        };
        Some((key, v))
    } else {
        None
    }
}

/// One `key: true|false` entry of an `allowBuilds` block.
pub fn parse_allow_builds_entry(line: &str) -> (r: Option<(String, String)>)
    ensures
        match parse_entry_spec(line@) {
            Some((k, v)) => r matches Some(x) && x.0@ == k && x.1@ == v,
            None => r is None,
        },
{
    match parse_entry_chars(&chars_of(line)) {
        Some((k, v)) => Some((string_of(&k), string_of(&v))),
        None => None,
    }
}

fn quote_key_chars(k: &Vec<char>) -> (r: Vec<char>)
    ensures
        r@ == quote_key_spec(k@),
{
    let first_special = if k.len() > 0 {
        let c = k[0];
        c == '@' || c == '-' || c == '?' || c == ':' || c == ',' || c == '[' || c == ']' || c
            == '{' || c == '}' || c == '#' || c == '&' || c == '*' || c == '!' || c == '|' || c
            == '>' || c == '\'' || c == '"' || c == '%' || c == '`'
    } else {
        false
    };
    if first_special || contains_exec(k, &chars_of(": ")) || ends_with_exec(k, &chars_of(":")) {
        let q = chars_of("'");
        proof {
            reveal_strlit("'");
        }
        let mut r = chars_of("'");
        extend(&mut r, &replace_exec(k, &q, &chars_of("''")));
        extend(&mut r, &q);
        r
    } else {
        slice_of(k, 0, k.len())
    }
}

/// A text in which character `c` does not occur holds no pattern that
/// starts with `c`.
proof fn lemma_absent_first_char(s: Seq<char>, p: Seq<char>)
    requires
        p.len() > 0,
        forall|j: int| 0 <= j < s.len() ==> s[j] != p[0],
    ensures
        find(s, p) is None,
{
    crate::text::lemma_find_from_props(s, p, 0);
    if find(s, p) is Some {
        let i = find(s, p)->0;
        assert(s.subrange(i, i + p.len())[0] == s[i]);
    }
}

/// The characters of a package name are none of the ones that quoting or
/// an entry line treat specially.
proof fn lemma_package_chars(k: Seq<char>)
    requires
        package_name_valid(k),
    ensures
        forall|j: int|
            0 <= j < k.len() ==> #[trigger] k[j] != '\'' && k[j] != ':' && !is_ws(k[j]) && k[j]
                != '#' && k[j] != '"',
{
    assert forall|j: int| 0 <= j < k.len() implies #[trigger] k[j] != '\'' && k[j] != ':'
        && !is_ws(k[j]) && k[j] != '#' && k[j] != '"' by {
        let f = |c: char| is_package_char(c);
        assert(all_chars(k, f));
        assert(f(k[j]));
    }
}

/// A package name is quoted only for a leading YAML indicator, and its
/// quoted form holds no `:`, whitespace or `#`.
pub proof fn lemma_quoted_package(k: Seq<char>)
    requires
        package_name_valid(k),
    ensures
        quote_key_spec(k) == if is_yaml_indicator(k[0]) {
            "'"@ + k + "'"@
        } else {
            k
        },
        quote_key_spec(k).len() > 0,
        forall|j: int|
            0 <= j < quote_key_spec(k).len() ==> #[trigger] quote_key_spec(k)[j] != ':' && !is_ws(
                quote_key_spec(k)[j],
            ) && quote_key_spec(k)[j] != '#',
        unquote(quote_key_spec(k)) == k,
        trim(quote_key_spec(k)) == quote_key_spec(k),
{
    reveal_strlit("'");
    reveal_strlit("''");
    reveal_strlit(": ");
    reveal_strlit(":");
    lemma_package_chars(k);
    assert("'"@[0] == '\'');
    lemma_absent_first_char(k, "'"@);
    assert(replace_all(k, "'"@, "''"@) == k);
    assert(": "@[0] == ':');
    lemma_absent_first_char(k, ": "@);
    assert(!ends_with(k, ":"@)) by {
        assert(k.skip(k.len() - 1)[0] == k[k.len() - 1]);
    }
    let q = quote_key_spec(k);
    let quoted = is_yaml_indicator(k[0]);
    assert(q == if quoted { "'"@ + k + "'"@ } else { k });
    let n = q.len() as int;
    assert forall|j: int| 0 <= j < n implies #[trigger] q[j] != ':' && !is_ws(q[j]) && q[j]
        != '#' by {
        if quoted && 0 < j < n - 1 {
            assert(q[j] == k[j - 1]);
        } else if !quoted {
            assert(q[j] == k[j]);
        }
    }
    assert(unquote(q) == k) by {
        if quoted {
            assert(q.subrange(1, q.len() - 1) =~= k);
        } else {
            assert(k[0] != '\'' && k[0] != '"');
        }
    }
    crate::text::lemma_lead_len_run(q, ws_pred(), 0, 0);
    assert(q.skip(0) =~= q);
    crate::text::lemma_trail_len_run(q, ws_pred(), n, n);
    assert(q.take(n) =~= q);
    assert(trim(q) =~= q);
}

/// A package name written as a key with `quote_yaml_key` on an
/// `allowBuilds` entry line reads back as that name, with its value.
#[verifier::spinoff_prover]
#[verifier::rlimit(40)]
pub proof fn law_quoted_key_reads_back(k: Seq<char>, v: Seq<char>)
    requires
        package_name_valid(k),
        v == "true"@ || v == "false"@,
    ensures
        parse_entry_spec("  "@ + quote_key_spec(k) + ": "@ + v) == Some((k, v)),
{
    reveal_strlit("true");
    reveal_strlit("false");
    reveal_strlit("  ");
    reveal_strlit(": ");
    lemma_quoted_package(k);
    let q = quote_key_spec(k);
    let line = "  "@ + q + ": "@ + v;
    let n = q.len() as int;
    assert(line.len() == n + 4 + v.len());
    assert forall|j: int| 0 <= j < n implies #[trigger] line[j + 2] == q[j] by {}
    assert(line[n + 2] == ':');
    assert(line[n + 3] == ' ');
    assert forall|j: int| 0 <= j < v.len() implies #[trigger] line[n + 4 + j] == v[j] by {}
    // Leading and trailing whitespace.
    crate::text::lemma_lead_len_run(line, ws_pred(), 0, 2);
    assert(line.skip(0) =~= line);
    assert(!is_ws(line[2])) by {
        assert(line[2] == q[0]);
    }
    let ts = trim_start(line);
    assert(ts =~= q + ": "@ + v);
    assert(!is_ws(ts.last())) by {
        assert(ts.last() == v.last());
    }
    crate::text::lemma_trail_len_run(ts, ws_pred(), ts.len() as int, ts.len() as int);
    assert(ts.take(ts.len() as int) =~= ts);
    let t = trim(line);
    assert(t =~= ts);
    assert(t[0] == q[0]);
    // The last ':' ends the key.
    crate::text::lemma_rfind_props(t, ':', t.len() as int);
    assert(t[n] == ':');
    assert forall|j: int| n < j < t.len() implies t[j] != ':' by {
        if j > n + 1 {
            assert(t[j] == v[j - n - 2]);
        }
    }
    assert(rfind(t, ':') == Some(n)) by {
        let r = rfind(t, ':');
        if r != Some(n) {
            if r is Some {
                let i = r->0;
                if i < n {
                    assert(t[i] == q[i]);
                }
            }
        }
    }
    assert(t.take(n) =~= q);
    // The value.
    let rest = t.skip(n + 1);
    assert(rest =~= " "@ + v) by {
        reveal_strlit(" ");
    }
    crate::text::lemma_lead_len_run(rest, ws_pred(), 0, 1);
    assert(rest.skip(0) =~= rest);
    assert(!is_ws(rest[1])) by {
        assert(rest[1] == v[0]);
    }
    let rs = trim_start(rest);
    assert(rs =~= v);
    crate::text::lemma_trail_len_run(rs, ws_pred(), rs.len() as int, rs.len() as int);
    assert(rs.take(rs.len() as int) =~= rs);
    assert(trim(rest) =~= v);
}

/// A YAML key, quoted where needed.
pub fn quote_yaml_key(key: &str) -> (r: String)
    ensures
        r@ == quote_key_spec(key@),
{
    string_of(&quote_key_chars(&chars_of(key)))
}

pub open spec fn entries_view(v: Vec<(Vec<char>, Vec<char>)>) -> Seq<(Seq<char>, Seq<char>)> {
    v@.map_values(|e: (Vec<char>, Vec<char>)| (e.0@, e.1@))
}

/// Inserts `(k, v)` into the sorted entries, replacing the value of an equal key.
fn map_insert(
    es: &mut Vec<(Vec<char>, Vec<char>)>,
    k: Vec<char>,
    v: Vec<char>,
    Ghost(m): Ghost<Map<Seq<char>, Seq<char>>>,
)
    requires
        represents(entries_view(*old(es)), m),
    ensures
        represents(entries_view(*final(es)), m.insert(k@, v@)),
{
    let ghost s = entries_view(*es);
    let mut i: usize = 0;
    while i < es.len() && seq_less(&es[i].0, &k)
        invariant
            i <= es.len(),
            s == entries_view(*es),
            forall|j: int| 0 <= j < i ==> seq_lt(#[trigger] s[j].0, k@),
        decreases es.len() - i,
    {
        assert(s[i as int].0 == es@[i as int].0@);
        i += 1;
    }
    let ghost m2 = m.insert(k@, v@);
    if i < es.len() && eq(&es[i].0, &k) {
        es.set(i, (k, v));
        proof {
            let s2 = entries_view(*es);
            assert(s2 =~= s.update(i as int, (k@, v@)));
            assert(s[i as int].0 == k@);
            assert forall|a: int| 0 <= a < s2.len() implies #[trigger] s2[a].0 == s[a].0 by {}
            assert(sorted_keys(s2));
            assert forall|a: int| 0 <= a < s2.len() implies m2.contains_key(#[trigger] s2[a].0)
                && m2[s2[a].0] == s2[a].1 by {
                if a != i {
                    assert(s2[a] == s[a]);
                    if s[a].0 == k@ {
                        if a < i {
                            lemma_seq_lt_irrefl(k@);
                        } else {
                            assert(seq_lt(s[i as int].0, s[a].0));
                            lemma_seq_lt_irrefl(k@);
                        }
                    }
                }
            }
            assert forall|key: Seq<char>| #[trigger] m2.contains_key(key) implies exists|a: int|
                0 <= a < s2.len() && s2[a].0 == key by {
                if key == k@ {
                    assert(s2[i as int].0 == key);
                } else {
                    let a = choose|a: int| 0 <= a < s.len() && s[a].0 == key;
                    assert(s2[a].0 == key);
                }
            }
        }
    } else {
        es.insert(i, (k, v));
        proof {
            let s2 = entries_view(*es);
            assert(s2 =~= s.insert(i as int, (k@, v@)));
            if i < s.len() {
                lemma_seq_lt_total(s[i as int].0, k@);
                lemma_seq_lt_asym(s[i as int].0, k@);
            }
            assert forall|a: int, b: int| 0 <= a < b < s2.len() implies seq_lt(
                #[trigger] s2[a].0,
                #[trigger] s2[b].0,
            ) by {
                if b < i {
                } else if b == i {
                    assert(s2[a] == s[a]);
                } else if a < i {
                    assert(s2[b] == s[b - 1]);
                    lemma_seq_lt_trans(s[a].0, k@, s[i as int].0);
                    if b - 1 > i {
                        lemma_seq_lt_trans(s[a].0, s[i as int].0, s[b - 1].0);
                    }
                } else if a == i {
                    assert(s2[b] == s[b - 1]);
                    if b - 1 > i {
                        lemma_seq_lt_trans(k@, s[i as int].0, s[b - 1].0);
                    }
                } else {
                    assert(s2[a] == s[a - 1]);
                    assert(s2[b] == s[b - 1]);
                }
            }
            assert forall|a: int| 0 <= a < s2.len() implies m2.contains_key(#[trigger] s2[a].0)
                && m2[s2[a].0] == s2[a].1 by {
                if a < i {
                    assert(s2[a] == s[a]);
                    if s[a].0 == k@ {
                        lemma_seq_lt_irrefl(k@);
                    }
                } else if a > i {
                    assert(s2[a] == s[a - 1]);
                    if s[a - 1].0 == k@ {
                        if a - 1 > i {
                            lemma_seq_lt_trans(k@, s[i as int].0, s[a - 1].0);
                        }
                        lemma_seq_lt_irrefl(k@);
                    }
                }
            }
            assert forall|key: Seq<char>| #[trigger] m2.contains_key(key) implies exists|a: int|
                0 <= a < s2.len() && s2[a].0 == key by {
                if key == k@ {
                    assert(s2[i as int].0 == key);
                } else {
                    let a = choose|a: int| 0 <= a < s.len() && s[a].0 == key;
                    if a < i {
                        assert(s2[a].0 == key);
                    } else {
                        assert(s2[a + 1].0 == key);
                    }
                }
            }
        }
    }
}

fn line_end_exec(t: &Vec<char>, i: usize) -> (r: usize)
    requires
        i <= t.len(),
    ensures
        r == line_end_from(t@, i as int),
        i <= r <= t.len(),
{
    let mut nl: Vec<char> = Vec::new();
    nl.push('\n');
    assert(nl@ =~= seq!['\n']);
    proof {
        lemma_line_end_bound(t@, i as int);
        lemma_find_from_props(t@, seq!['\n'], i as int);
    }
    match find_from_exec(t, &nl, i) {
        Some(k) => k + 1,
        None => t.len(),
    }
}

fn block_end_exec(t: &Vec<char>, start: usize) -> (r: usize)
    requires
        start <= t.len(),
    ensures
        r == block_end(t@, start as int),
{
    let mut e: usize = start;
    while e < t.len()
        invariant
            start <= e <= t.len(),
            block_end(t@, e as int) == block_end(t@, start as int),
        decreases t.len() - e,
    {
        let le = line_end_exec(t, e);
        let raw = slice_of(t, e, le);
        let cut = trail_count2(&raw, '\r', '\n');
        let line = slice_of(&raw, 0, raw.len() - cut);
        assert(line@ =~= line_at(t@, e as int));
        if le > e && (line.len() == 0 || line[0] == ' ' || line[0] == '\t') {
            e = le;
        } else {
            return e;
        }
    }
    e
}

pub open spec fn blocks_view(b: Vec<(usize, usize, usize)>) -> Seq<(int, int, int)> {
    b@.map_values(|x: (usize, usize, usize)| (x.0 as int, x.1 as int, x.2 as int))
}

#[verifier::spinoff_prover]
fn scan_blocks(t: &Vec<char>) -> (r: Vec<(usize, usize, usize)>)
    ensures
        blocks_view(r) == blocks_from(t@, 0),
        forall|j: int|
            0 <= j < r@.len() ==> #[trigger] r@[j].0 <= r@[j].1 <= r@[j].2 <= t.len(),
{
    let key = chars_of("allowBuilds:");
    let mut r: Vec<(usize, usize, usize)> = Vec::new();
    let mut search: usize = 0;
    loop
        invariant
            search <= t.len(),
            key@ == "allowBuilds:"@,
            blocks_view(r) + blocks_from(t@, search as int) == blocks_from(t@, 0),
            forall|j: int|
                0 <= j < r@.len() ==> #[trigger] r@[j].0 <= r@[j].1 <= r@[j].2 <= t.len(),
        decreases t.len() + 1 - search,
    {
        let start = match find_from_exec(t, &key, search) {
            None => {
                assert(blocks_view(r) + blocks_from(t@, search as int) =~= blocks_view(r));
                assert(forall|j: int|
                    0 <= j < r@.len() ==> #[trigger] r@[j].0 <= r@[j].1 <= r@[j].2 <= t.len());
                return r;
            },
            Some(st) => st,
        };
        proof {
            lemma_allow_builds_block_bound(t@, search as int);
        }
        let al = line_end_exec(t, start + 12);
        let end = block_end_exec(t, al);
        let next = if end > start + 1 {
            end
        } else {
            start + 1
        };
        let ghost before = blocks_view(r);
        let ghost old_r = r@;
        assert(start <= al && al <= end && end <= t.len());
        r.push((start, al, end));
        assert forall|j: int| 0 <= j < r@.len() implies #[trigger] r@[j].0 <= r@[j].1 <= r@[j].2
            <= t.len() by {
            if j < old_r.len() {
                assert(r@[j] == old_r[j]);
            }
        }
        assert(blocks_view(r) =~= before.push((start as int, al as int, end as int)));
        assert(blocks_view(r) + blocks_from(t@, next as int) =~= before + blocks_from(
            t@,
            search as int,
        ));
        search = next;
    }
}

/// Rendered entry lines of sorted entries.
fn entry_lines(es: &Vec<(Vec<char>, Vec<char>)>) -> (r: Vec<Vec<char>>)
    ensures
        vecs_view(r) == entries_view(*es).map_values(
            |e: (Seq<char>, Seq<char>)| entry_line(e),
        ),
{
    let mut r: Vec<Vec<char>> = Vec::new();
    for i in 0..es.len()
        invariant
            vecs_view(r) == entries_view(*es).take(i as int).map_values(
                |e: (Seq<char>, Seq<char>)| entry_line(e),
            ),
    {
        let mut line = chars_of("  ");
        extend(&mut line, &quote_key_chars(&es[i].0));
        extend(&mut line, &chars_of(": "));
        extend(&mut line, &es[i].1);
        let ghost before = vecs_view(r);
        r.push(line);
        assert(vecs_view(r) =~= before.push(line@));
        assert(entries_view(*es).take(i + 1) =~= entries_view(*es).take(i as int).push(
            entries_view(*es)[i as int],
        ));
        assert(entries_view(*es).take(i + 1).map_values(
            |e: (Seq<char>, Seq<char>)| entry_line(e),
        ) =~= vecs_view(r));
    }
    assert(entries_view(*es).take(es.len() as int) =~= entries_view(*es));
    r
}

/// `content` is `yaml` with `keys` merged into its `allowBuilds`.
pub open spec fn merged_content(yaml: Seq<char>, keys: Seq<Seq<char>>, content: Seq<char>) -> bool {
    exists|s: Seq<(Seq<char>, Seq<char>)>|
        #[trigger] represents(s, merged_map(yaml, keys)) && content == merge_result(
            yaml,
            block_text(s, eol_of(yaml)),
        )
}

pub open spec fn keys_view(keys: &[String]) -> Seq<Seq<char>> {
    keys@.map_values(|k: String| k@)
}

/// Merges `keys` as allowed builds into a `pnpm-workspace.yaml` text: every
/// `allowBuilds:` block is folded into one, sorted by key, at the place of the
/// first block (or appended), keeping the file's line ending.
pub fn merge_allow_builds(yaml: &str, keys: &[String]) -> (r: String)
    ensures
        merged_content(yaml@, keys_view(keys), r@),
{
    let y = chars_of(yaml);
    let crlf = chars_of("\r\n");
    let eol = if contains_exec(&y, &crlf) {
        crlf
    } else {
        chars_of("\n")
    };
    let blocks = scan_blocks(&y);
    let ghost bv = blocks_view(blocks);
    let mut es: Vec<(Vec<char>, Vec<char>)> = Vec::new();
    let ghost mut m: Map<Seq<char>, Seq<char>> = Map::empty();
    assert(represents(entries_view(es), m));
    for j in 0..blocks.len()
        invariant
            bv == blocks_view(blocks),
            bv == blocks_from(y@, 0),
            forall|x: int|
                0 <= x < blocks@.len() ==> #[trigger] blocks@[x].0 <= blocks@[x].1
                    <= blocks@[x].2 <= y.len(),
            represents(entries_view(es), m),
            add_blocks(y@, bv, j as int, m) == add_blocks(y@, bv, 0, Map::empty()),
    {
        let (_, b1, b2) = blocks[j];
        let body = slice_of(&y, b1, b2);
        let ls = lines_exec(&body);
        let ghost lv = lines(body@);
        let ghost m0 = m;
        assert(bv[j as int] == (blocks@[j as int].0 as int, b1 as int, b2 as int));
        assert(body@ == y@.subrange(bv[j as int].1, bv[j as int].2));
        for i in 0..ls.len()
            invariant
                lv == lines(body@),
                ls@.len() == lv.len(),
                forall|x: int| 0 <= x < ls@.len() ==> #[trigger] ls@[x]@ == lv[x],
                represents(entries_view(es), m),
                add_lines(lv, i as int, m) == add_lines(lv, 0, m0),
        {
            match parse_entry_chars(&ls[i]) {
                Some((k, v)) => {
                    map_insert(&mut es, k, v, Ghost(m));
                    proof {
                        m = m.insert(k@, v@);
                    }
                },
                None => {},
            }
        }
    }
    let ghost kv = keys_view(keys);
    for i in 0..keys.len()
        invariant
            kv == keys_view(keys),
            represents(entries_view(es), m),
            add_keys(kv, i as int, m) == merged_map(y@, kv),
    {
        let k = chars_of(keys[i].as_str());
        assert(k@ == kv[i as int]);
        if package_chars_valid(&k) {
            map_insert(&mut es, k, chars_of("true"), Ghost(m));
            proof {
                m = m.insert(kv[i as int], "true"@);
            }
        }
    }
    let lines_v = entry_lines(&es);
    let body = join_exec(&lines_v, &eol);
    let mut bt = chars_of("allowBuilds:");
    extend(&mut bt, &eol);
    extend(&mut bt, &body);
    extend(&mut bt, &eol);
    assert(bt@ =~= block_text(entries_view(es), eol_of(y@)));
    let out = if blocks.len() > 0 {
        let first = blocks[0].0;
        let mut next = slice_of(&y, 0, first);
        extend(&mut next, &bt);
        let mut cursor: usize = first;
        let ghost head = next@;
        for b in 0..blocks.len()
            invariant
                bv == blocks_view(blocks),
                forall|x: int|
                    0 <= x < blocks@.len() ==> #[trigger] blocks@[x].0 <= blocks@[x].1
                        <= blocks@[x].2 <= y.len(),
                cursor <= y.len(),
                next@ + between(y@, bv, b as int, cursor as int) == head + between(
                    y@,
                    bv,
                    0,
                    first as int,
                ),
        {
            let (bs, _, be) = blocks[b];
            let ghost before = next@;
            if bs > cursor {
                extend(&mut next, &slice_of(&y, cursor, bs));
            }
            assert(next@ + between(y@, bv, b + 1, be as int) =~= before + between(
                y@,
                bv,
                b as int,
                cursor as int,
            ));
            cursor = be;
        }
        let n = y.len();
        extend(&mut next, &slice_of(&y, cursor, n));
        assert(next@ =~= head + between(y@, bv, 0, first as int));
        if ends_with_exec(&next, &eol) {
            next
        } else {
            extend(&mut next, &eol);
            next
        }
    } else if y.len() == 0 {
        bt
    } else if ends_with_exec(&y, &chars_of("\n")) {
        concat(&y, &bt)
    } else {
        let mut o = concat(&y, &eol);
        extend(&mut o, &bt);
        o
    };
    string_of(&out)
}

// ---------------------------------------------------------------------------
// Profile plugins and the retry decision
// ---------------------------------------------------------------------------

/// A dependency of a profile that the profile lists as a bundle.
#[derive(Debug, Clone, PartialEq, Eq)]
pub struct InstalledPlugin {
    pub name: String,
    pub spec: String,
}

/// The plugins of one profile.
#[derive(Debug, Clone, PartialEq, Eq)]
pub struct ProfilePluginList {
    pub profile: String,
    pub plugins: Vec<InstalledPlugin>,
}

/// What a profile's manifest says about plugins: its dependencies (name
/// and version spec), each name once and by increasing name, and the names
/// that are bundles.
#[derive(Debug, PartialEq, Eq)]
pub struct ProfileManifest {
    dependencies: Vec<(String, String)>,
    bundles: Vec<String>,
}

pub open spec fn plugin_view(p: InstalledPlugin) -> (Seq<char>, Seq<char>) {
    (p.name@, p.spec@)
}

pub open spec fn plugins_view(v: Vec<InstalledPlugin>) -> Seq<(Seq<char>, Seq<char>)> {
    v@.map_values(|p: InstalledPlugin| plugin_view(p))
}

pub closed spec fn deps_view(m: ProfileManifest) -> Seq<(Seq<char>, Seq<char>)> {
    m.dependencies@.map_values(|d: (String, String)| (d.0@, d.1@))
}

pub closed spec fn bundles_view(m: ProfileManifest) -> Seq<Seq<char>> {
    m.bundles@.map_values(|b: String| b@)
}

/// The dependencies of `deps[..n]` that are bundles, in order.
pub open spec fn installed_spec(
    deps: Seq<(Seq<char>, Seq<char>)>,
    bundles: Seq<Seq<char>>,
    n: int,
) -> Seq<(Seq<char>, Seq<char>)>
    decreases n,
{
    if n <= 0 || n > deps.len() {
        seq![]
    } else if bundles.contains(deps[n - 1].0) {
        installed_spec(deps, bundles, n - 1).push(deps[n - 1])
    } else {
        installed_spec(deps, bundles, n - 1)
    }
}

fn is_bundle(bundles: &Vec<String>, name: &String) -> (r: bool)
    ensures
        r == bundles@.map_values(|b: String| b@).contains(name@),
{
    let ghost bv = bundles@.map_values(|b: String| b@);
    for i in 0..bundles.len()
        invariant
            bv == bundles@.map_values(|b: String| b@),
            forall|k: int| 0 <= k < i ==> bv[k] != name@,
    {
        if bundles[i] == *name {
            assert(bv[i as int] == name@);
            return true;
        }
    }
    assert(!bv.contains(name@)) by {
        if bv.contains(name@) {
            let k = choose|k: int| 0 <= k < bv.len() && bv[k] == name@;
        }
    }
    false
}

/// The profile's dependencies that it lists as bundles, in dependency order.
pub fn installed_plugins(manifest: &ProfileManifest) -> (r: Vec<InstalledPlugin>)
    ensures
        plugins_view(r) == installed_spec(
            deps_view(*manifest),
            bundles_view(*manifest),
            deps_view(*manifest).len() as int,
        ),
        sorted_keys(plugins_view(r)),
{
    proof {
        use_type_invariant(manifest);
    }
    let ghost dv = deps_view(*manifest);
    let mut r: Vec<InstalledPlugin> = Vec::new();
    for i in 0..manifest.dependencies.len()
        invariant
            dv == deps_view(*manifest),
            dv.len() == manifest.dependencies@.len(),
            sorted_keys(dv),
            plugins_view(r) == installed_spec(dv, bundles_view(*manifest), i as int),
            sorted_keys(plugins_view(r)),
            forall|a: int, m: int|
                0 <= a < plugins_view(r).len() && i <= m < dv.len() ==> seq_lt(
                    #[trigger] plugins_view(r)[a].0,
                    #[trigger] dv[m].0,
                ),
    {
        let (name, spec) = &manifest.dependencies[i];
        assert(dv[i as int] == (name@, spec@));
        if is_bundle(&manifest.bundles, name) {
            let ghost before = plugins_view(r);
            r.push(InstalledPlugin { name: name.clone(), spec: spec.clone() });
            assert(plugins_view(r) =~= before.push(dv[i as int]));
            proof {
                let after = plugins_view(r);
                assert forall|a: int, b: int| 0 <= a < b < after.len() implies seq_lt(
                    #[trigger] after[a].0,
                    #[trigger] after[b].0,
                ) by {
                    if b == before.len() {
                        assert(seq_lt(before[a].0, dv[i as int].0));
                    } else {
                        assert(seq_lt(before[a].0, before[b].0));
                    }
                }
                assert forall|a: int, m: int|
                    0 <= a < after.len() && i + 1 <= m < dv.len() implies seq_lt(
                    #[trigger] after[a].0,
                    #[trigger] dv[m].0,
                ) by {
                    if a == before.len() {
                        assert(seq_lt(dv[i as int].0, dv[m].0));
                    } else {
                        assert(seq_lt(before[a].0, dv[m].0));
                    }
                }
            }
        }
    }
    r
}

/// The first index from `i` on whose key is not below `k` (the length when
/// there is none).
pub open spec fn sorted_pos(d: Seq<(Seq<char>, Seq<char>)>, k: Seq<char>, i: int) -> int
    decreases d.len() - i,
{
    if i < 0 || i >= d.len() {
        d.len() as int
    } else if seq_lt(d[i].0, k) {
        sorted_pos(d, k, i + 1)
    } else {
        i
    }
}

/// Entries sorted by key with `(k, v)` put in: the value of an equal key is
/// replaced, else the entry goes where its key belongs.
pub open spec fn insert_sorted(d: Seq<(Seq<char>, Seq<char>)>, k: Seq<char>, v: Seq<char>) -> Seq<
    (Seq<char>, Seq<char>),
> {
    let i = sorted_pos(d, k, 0);
    if i < d.len() && d[i].0 == k {
        d.update(i, (k, v))
    } else {
        d.insert(i, (k, v))
    }
}

impl ProfileManifest {
    /// The dependencies are listed by strictly increasing name.
    #[verifier::type_invariant]
    closed spec fn keys_sorted(self) -> bool {
        sorted_keys(deps_view(self))
    }

    /// A manifest with these bundles and no dependencies yet.
    pub fn new(bundles: Vec<String>) -> (r: Self)
        ensures
            deps_view(r) == Seq::<(Seq<char>, Seq<char>)>::empty(),
            bundles_view(r) == bundles@.map_values(|b: String| b@),
    {
        let r = ProfileManifest { dependencies: Vec::new(), bundles };
        assert(deps_view(r) =~= Seq::<(Seq<char>, Seq<char>)>::empty());
        r
    }

    /// Records dependency `name` with version `spec`, replacing an earlier
    /// spec for the same name.
    pub fn insert_dependency(&mut self, name: String, spec: String)
        ensures
            deps_view(*final(self)) == insert_sorted(deps_view(*old(self)), name@, spec@),
            bundles_view(*final(self)) == bundles_view(*old(self)),
    {
        proof {
            use_type_invariant(&*self);
        }
        let ghost s = deps_view(*self);
        let mut es: Vec<(String, String)> = Vec::new();
        std::mem::swap(&mut es, &mut self.dependencies);
        assert(es@.map_values(|d: (String, String)| (d.0@, d.1@)) == s);
        let mut i: usize = 0;
        while i < es.len() && seq_less(&chars_of(es[i].0.as_str()), &chars_of(name.as_str()))
            invariant
                i <= es.len(),
                s == es@.map_values(|d: (String, String)| (d.0@, d.1@)),
                s.len() == es@.len(),
                forall|j: int| 0 <= j < i ==> seq_lt(#[trigger] s[j].0, name@),
                sorted_pos(s, name@, 0) == sorted_pos(s, name@, i as int),
            decreases es.len() - i,
        {
            assert(s[i as int].0 == es@[i as int].0@);
            i += 1;
        }
        proof {
            if i < es.len() {
                assert(s[i as int].0 == es@[i as int].0@);
            }
        }
        assert(sorted_pos(s, name@, 0) == i as int);
        let ghost name_v = name@;
        let ghost spec_v = spec@;
        if i < es.len() && str_eq(es[i].0.as_str(), name.as_str()) {
            es.set(i, (name, spec));
            proof {
                let s2 = es@.map_values(|d: (String, String)| (d.0@, d.1@));
                assert(s2 =~= s.update(i as int, (name_v, spec_v)));
                assert(s[i as int].0 == name_v);
                assert forall|a: int, b: int| 0 <= a < b < s2.len() implies seq_lt(
                    #[trigger] s2[a].0,
                    #[trigger] s2[b].0,
                ) by {
                    assert(s2[a].0 == s[a].0);
                    assert(s2[b].0 == s[b].0);
                }
            }
        } else {
            es.insert(i, (name, spec));
            proof {
                let s2 = es@.map_values(|d: (String, String)| (d.0@, d.1@));
                assert(s2 =~= s.insert(i as int, (name_v, spec_v)));
                if i < s.len() {
                    lemma_seq_lt_total(s[i as int].0, name_v);
                    lemma_seq_lt_asym(s[i as int].0, name_v);
                }
                assert forall|a: int, b: int| 0 <= a < b < s2.len() implies seq_lt(
                    #[trigger] s2[a].0,
                    #[trigger] s2[b].0,
                ) by {
                    if b < i {
                    } else if b == i {
                        assert(s2[a] == s[a]);
                    } else if a < i {
                        assert(s2[b] == s[b - 1]);
                        lemma_seq_lt_trans(s[a].0, name_v, s[i as int].0);
                        if b - 1 > i {
                            lemma_seq_lt_trans(s[a].0, s[i as int].0, s[b - 1].0);
                        }
                    } else if a == i {
                        assert(s2[b] == s[b - 1]);
                        if b - 1 > i {
                            lemma_seq_lt_trans(name_v, s[i as int].0, s[b - 1].0);
                        }
                    } else {
                        assert(s2[a] == s[a - 1]);
                        assert(s2[b] == s[b - 1]);
                    }
                }
            }
        }
        assert(sorted_keys(es@.map_values(|d: (String, String)| (d.0@, d.1@))));
        self.dependencies = es;
    }

    /// The dependencies, by increasing name.
    pub fn dependencies(&self) -> (r: &Vec<(String, String)>)
        ensures
            r@.map_values(|d: (String, String)| (d.0@, d.1@)) == deps_view(*self),
            sorted_keys(deps_view(*self)),
    {
        proof {
            use_type_invariant(self);
        }
        &self.dependencies
    }

    /// The names that are bundles.
    pub fn bundles(&self) -> (r: &Vec<String>)
        ensures
            r@.map_values(|b: String| b@) == bundles_view(*self),
    {
        &self.bundles
    }
}

/// The plugins of `profile`, given its manifest if it has one; an invalid
/// profile name is refused.
pub fn list_profile_plugins(profile: &str, manifest: Option<&ProfileManifest>) -> (r: Result<
    ProfilePluginList,
    LauncherError,
>)
    ensures
        !profile_valid(profile@) ==> (r matches Err(e) && e@ == invalid_command_fault()),
        profile_valid(profile@) ==> (r matches Ok(l) && l.profile@ == profile@ && match manifest {
            None => l.plugins@.len() == 0,
            Some(m) => plugins_view(l.plugins) == installed_spec(
                deps_view(*m),
                bundles_view(*m),
                deps_view(*m).len() as int,
            ),
        }),
{
    if !is_profile_valid(profile) {
        return Err(invalid_command());
    }
    let plugins = match manifest {
        None => Vec::new(),
        Some(m) => installed_plugins(m),
    };
    Ok(ProfilePluginList { profile: String::from_str(profile), plugins })
}

/// The `pnpm-workspace.yaml` to write so that `keys` may build, given the
/// current file (absent reads as empty); `None` when no key is valid.
pub fn allow_builds_content(existing: Option<&str>, keys: &[String]) -> (r: Option<String>)
    ensures
        (exists|i: int| 0 <= i < keys@.len() && package_name_valid(#[trigger] keys@[i]@)) ==> (
        r matches Some(content) && merged_content(opt_text(existing), keys_view(keys), content@)),
        !(exists|i: int| 0 <= i < keys@.len() && package_name_valid(#[trigger] keys@[i]@))
            ==> r is None,
{
    let mut any = false;
    for i in 0..keys.len()
        invariant
            any == exists|k: int| 0 <= k < i && package_name_valid(#[trigger] keys@[k]@),
    {
        if is_package_name(keys[i].as_str()) {
            any = true;
        }
    }
    if !any {
        return None;
    }
    let yaml = match existing {
        Some(y) => y,
        None => "",
    };
    proof {
        reveal_strlit("");
    }
    assert(yaml@ == opt_text(existing));
    Some(merge_allow_builds(yaml, keys))
}

/// The text of an optional file, absent read as empty.
pub open spec fn opt_text(existing: Option<&str>) -> Seq<char> {
    match existing {
        Some(y) => y@,
        None => seq![],
    }
}

/// What to do after one attempt of a plugin command.
#[derive(Debug, Clone, PartialEq, Eq)]
pub enum PluginStep {
    /// The command succeeded; this is its result.
    Done(PluginCommandResult),
    /// Allow these builds in the profile's workspace, then try again.
    AllowBuildsAndRetry(Vec<String>),
    /// Give up with the last summary.
    GiveUp,
}

/// Decides after one attempt of `command`, given whether it succeeded, its
/// compacted output and that output's summary. The caller makes at most
/// `MAX_PLUGIN_ATTEMPTS` attempts.
pub fn plugin_attempt_step(
    command: &PluginCommand,
    success: bool,
    captured: &str,
    summary: &str,
) -> (r: PluginStep)
    ensures
        success ==> (r matches PluginStep::Done(res) && res.action == command.action
            && res.profile@ == command.profile@ && res.source@ == command.source@ && res.summary@
            == summary@),
        !success && (command.action != PluginAction::Add || blocked_keys_spec(
            captured@,
            command.source@,
        ).len() == 0) ==> r is GiveUp,
        !success && command.action == PluginAction::Add && blocked_keys_spec(
            captured@,
            command.source@,
        ).len() > 0 ==> (r matches PluginStep::AllowBuildsAndRetry(keys) && strings_view(keys)
            == blocked_keys_spec(captured@, command.source@)),
{
    if success {
        return PluginStep::Done(
            PluginCommandResult {
                action: command.action,
                profile: command.profile.clone(),
                source: command.source.clone(),
                summary: String::from_str(summary),
            },
        );
    }
    if command.action != PluginAction::Add {
        return PluginStep::GiveUp;
    }
    let keys = blocked_build_keys(captured, command.source.as_str());
    if keys.len() == 0 {
        PluginStep::GiveUp
    } else {
        PluginStep::AllowBuildsAndRetry(keys)
    }
}

/// `{:?}` of an optional exit code.
pub open spec fn debug_code(code: Option<i32>) -> Seq<char> {
    match code {
        None => "None"@,
        Some(c) => "Some("@ + (if c < 0 {
            "-"@ + dec((-c) as nat)
        } else {
            dec(c as nat)
        }) + ")"@,
    }
}

fn debug_code_exec(last_code: Option<i32>) -> (r: Vec<char>)
    ensures
        r@ == debug_code(last_code),
{
    match last_code {
        None => chars_of("None"),
        Some(c) => {
            let mut m = chars_of("Some(");
            let digits = if c < 0 {
                let mag: u32 = if c == i32::MIN {
                    2147483648u32
                } else {
                    (-c) as u32
                };
                let mut d = chars_of("-");
                extend(&mut d, &dec_exec(mag as u64));
                d
            } else {
                dec_exec(c as u64)
            };
            extend(&mut m, &digits);
            extend(&mut m, &chars_of(")"));
            m
        },
    }
}

/// The error once every attempt failed.
pub fn plugin_failure(last_code: Option<i32>, last_summary: &str) -> (r: LauncherError)
    ensures
        r@ == Fault::DshPlugin(
            "dsh plugin command exited with code "@ + debug_code(last_code) + ": "@
                + last_summary@,
        ),
{
    let mut m = chars_of("dsh plugin command exited with code ");
    extend(&mut m, &debug_code_exec(last_code));
    extend(&mut m, &chars_of(": "));
    extend(&mut m, &chars_of(last_summary));
    LauncherError::DshPlugin(string_of(&m))
}

/// The attempts of one plugin command so far: how many were made, and the
/// exit code and summary of the last one.
pub struct PluginAttempts {
    made: usize,
    last_code: Option<i32>,
    last_summary: String,
}

/// Plugin attempts as values.
pub ghost struct PluginAttemptsView {
    pub made: nat,
    pub last_code: Option<i32>,
    pub last_summary: Seq<char>,
}

impl View for PluginAttempts {
    type V = PluginAttemptsView;

    closed spec fn view(&self) -> PluginAttemptsView {
        PluginAttemptsView {
            made: self.made as nat,
            last_code: self.last_code,
            last_summary: self.last_summary@,
        }
    }
}

impl PluginAttempts {
    /// No attempt made yet.
    pub fn new() -> (r: Self)
        ensures
            r@ == (PluginAttemptsView { made: 0, last_code: None, last_summary: Seq::empty() }),
    {
        let r = PluginAttempts { made: 0, last_code: None, last_summary: String::new() };
        assert(r@.last_summary =~= Seq::<char>::empty());
        r
    }

    /// Another attempt may be made: fewer than `MAX_PLUGIN_ATTEMPTS` were.
    pub fn may_attempt(&self) -> (r: bool)
        ensures
            r == (self@.made < MAX_PLUGIN_ATTEMPTS),
    {
        self.made < MAX_PLUGIN_ATTEMPTS
    }

    /// Records one attempt of `command` (whether it succeeded, its exit
    /// code, its compacted output and that output's summary) and decides
    /// what follows, as [`plugin_attempt_step`] does.
    pub fn record(
        &mut self,
        command: &PluginCommand,
        success: bool,
        code: Option<i32>,
        captured: &str,
        summary: &str,
    ) -> (r: PluginStep)
        requires
            old(self)@.made < MAX_PLUGIN_ATTEMPTS,
        ensures
            final(self)@ == (PluginAttemptsView {
                made: old(self)@.made + 1,
                last_code: code,
                last_summary: summary@,
            }),
            success ==> (r matches PluginStep::Done(res) && res.action == command.action
                && res.profile@ == command.profile@ && res.source@ == command.source@
                && res.summary@ == summary@),
            !success && (command.action != PluginAction::Add || blocked_keys_spec(
                captured@,
                command.source@,
            ).len() == 0) ==> r is GiveUp,
            !success && command.action == PluginAction::Add && blocked_keys_spec(
                captured@,
                command.source@,
            ).len() > 0 ==> (r matches PluginStep::AllowBuildsAndRetry(keys) && strings_view(keys)
                == blocked_keys_spec(captured@, command.source@)),
    {
        self.made = self.made + 1;
        self.last_code = code;
        self.last_summary = String::from_str(summary);
        plugin_attempt_step(command, success, captured, summary)
    }

    /// The error once no attempt succeeded: the last exit code and summary.
    pub fn failure(&self) -> (r: LauncherError)
        ensures
            r@ == Fault::DshPlugin(
                "dsh plugin command exited with code "@ + debug_code(self@.last_code) + ": "@
                    + self@.last_summary,
            ),
    {
        plugin_failure(self.last_code, self.last_summary.as_str())
    }
}

} // verus!
