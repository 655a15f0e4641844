//! Supervising the single `dsh web` process: when a start spawns, reuses
//! the running host or is refused; what a readiness outcome makes of the
//! supervisor; which exits are reported as unexpected; and the bounded
//! buffer of the host's startup output.
//!
//! Spawning, reading the pipes, timers and waiting happen outside; they
//! report to the decisions here.
use vstd::prelude::*;

use crate::dsh::install::{code_debug, code_debug_exec};
use crate::host::readiness::{fault_message, Origin, ReadinessError, ReadinessFault, MAX_STARTUP_OUTPUT_CHARS};
use crate::text::{byte_len, chars_of, dec, dec_exec, extend, len_utf8, string_of, utf8_width};

verus! {

broadcast use vstd::string::group_string_axioms;

/// How long a start waits for the readiness line, in milliseconds.
pub const DEFAULT_READINESS_TIMEOUT_MS: u64 = 90000;

/// How long a shutdown waits for the process, in milliseconds.
pub const DEFAULT_SHUTDOWN_TIMEOUT_MS: u64 = 5000;

/// How long the supervisor waits, in milliseconds. The callbacks that
/// receive the host's output and its unexpected exits belong to the caller
/// that runs the process.
#[derive(Debug, Clone, Copy, PartialEq, Eq)]
pub struct HostSupervisorConfig {
    pub readiness_timeout_ms: u64,
    pub shutdown_timeout_ms: u64,
}

impl Default for HostSupervisorConfig {
    /// Ninety seconds for readiness, five for a shutdown.
    fn default() -> (r: Self)
        ensures
            r.readiness_timeout_ms == DEFAULT_READINESS_TIMEOUT_MS,
            r.shutdown_timeout_ms == DEFAULT_SHUTDOWN_TIMEOUT_MS,
    {
        HostSupervisorConfig {
            readiness_timeout_ms: DEFAULT_READINESS_TIMEOUT_MS,
            shutdown_timeout_ms: DEFAULT_SHUTDOWN_TIMEOUT_MS,
        }
    }
}

/// How the host process ended.
#[derive(Debug, Clone, Copy, PartialEq, Eq)]
pub struct HostExitDetail {
    pub code: Option<i32>,
    pub signal: Option<i32>,
}

/// What went wrong with the host.
#[derive(Debug, Clone, PartialEq, Eq)]
pub enum HostSupervisorError {
    AlreadyShutdown,
    /// The readiness wait, in milliseconds.
    ReadinessTimeout(u64),
    SpawnFailed(String),
    ExitedBeforeReadiness { code: Option<i32>, signal: Option<i32> },
    Readiness(ReadinessError),
    /// A system I/O error, by its display text.
    Io(String),
    Other(String),
}

/// A host error as values.
pub ghost enum HostFault {
    AlreadyShutdown,
    ReadinessTimeout(u64),
    SpawnFailed(Seq<char>),
    ExitedBeforeReadiness(Option<i32>, Option<i32>),
    Readiness(ReadinessFault),
    Io(Seq<char>),
    Other(Seq<char>),
}

impl View for HostSupervisorError {
    type V = HostFault;

    open spec fn view(&self) -> HostFault {
        match self {
            HostSupervisorError::AlreadyShutdown => HostFault::AlreadyShutdown,
            HostSupervisorError::ReadinessTimeout(ms) => HostFault::ReadinessTimeout(*ms),
            HostSupervisorError::SpawnFailed(m) => HostFault::SpawnFailed(m@),
            HostSupervisorError::ExitedBeforeReadiness { code, signal } => HostFault::ExitedBeforeReadiness(*code, *signal),
            HostSupervisorError::Readiness(e) => HostFault::Readiness(e@),
            HostSupervisorError::Io(m) => HostFault::Io(m@),
            HostSupervisorError::Other(m) => HostFault::Other(m@),
        }
    }
}

/// Decimal digits of `n` below 1000, three wide, without trailing zeros.
pub open spec fn frac_digits(n: nat) -> Seq<char>
    decreases n,
{
    let d = seq![
        crate::text::digit_char(n / 100),
        crate::text::digit_char((n / 10) % 10),
        crate::text::digit_char(n % 10),
    ];
    if n % 100 == 0 {
        d.take(1)
    } else if n % 10 == 0 {
        d.take(2)
    } else {
        d
    }
}

/// How `{:?}` shows a duration of whole milliseconds.
pub open spec fn duration_debug(ms: u64) -> Seq<char> {
    if ms >= 1000 {
        dec((ms / 1000) as nat) + (if ms % 1000 == 0 {
            Seq::<char>::empty()
        } else {
            "."@ + frac_digits((ms % 1000) as nat)
        }) + "s"@
    } else if ms > 0 {
        dec(ms as nat) + "ms"@
    } else {
        "0ns"@
    }
}

fn duration_debug_exec(ms: u64) -> (r: Vec<char>)
    ensures
        r@ == duration_debug(ms),
{
    if ms >= 1000 {
        let mut m = dec_exec(ms / 1000);
        let f = ms % 1000;
        if f != 0 {
            let a = crate::text::digit_char_exec((f / 100) as u32);
            let b = crate::text::digit_char_exec(((f / 10) % 10) as u32);
            let c = crate::text::digit_char_exec((f % 10) as u32);
            m.push('.');
            m.push(a);
            if f % 100 != 0 {
                m.push(b);
                if f % 10 != 0 {
                    m.push(c);
                }
            }
            proof {
                reveal_strlit(".");
                let d = seq![a, b, c];
                assert(frac_digits(f as nat) == (if f % 100 == 0 {
                    d.take(1)
                } else if f % 10 == 0 {
                    d.take(2)
                } else {
                    d
                }));
            }
        }
        extend(&mut m, &chars_of("s"));
        proof {
            reveal_strlit(".");
            if f != 0 {
                assert(m@ =~= dec((ms / 1000) as nat) + ("."@ + frac_digits(f as nat)) + "s"@);
            } else {
                assert(m@ =~= dec((ms / 1000) as nat) + Seq::<char>::empty() + "s"@);
            }
        }
        m
    } else if ms > 0 {
        let mut m = dec_exec(ms);
        extend(&mut m, &chars_of("ms"));
        m
    } else {
        chars_of("0ns")
    }
}

/// The error's display text.
pub open spec fn host_message_spec(f: HostFault) -> Seq<char> {
    match f {
        HostFault::AlreadyShutdown => "desktop Host cannot start after shutdown"@,
        HostFault::ReadinessTimeout(ms) => "desktop Host readiness timed out after "@
            + duration_debug(ms),
        HostFault::SpawnFailed(m) => "desktop Host failed to spawn: "@ + m,
        HostFault::ExitedBeforeReadiness(c, s) => "desktop Host exited before readiness (code "@
            + code_debug(c) + ", signal "@ + code_debug(s) + ")"@,
        HostFault::Readiness(e) => fault_message(e),
        HostFault::Io(m) => "io: "@ + m,
        HostFault::Other(m) => m,
    }
}

impl HostSupervisorError {
    /// The error's display text.
    pub fn message(&self) -> (r: String)
        ensures
            r@ == host_message_spec(self@),
    {
        let m = match self {
            HostSupervisorError::AlreadyShutdown => chars_of("desktop Host cannot start after shutdown"),
            HostSupervisorError::ReadinessTimeout(ms) => {
                let mut m = chars_of("desktop Host readiness timed out after ");
                extend(&mut m, &duration_debug_exec(*ms));
                m
            },
            HostSupervisorError::SpawnFailed(s) => {
                let mut m = chars_of("desktop Host failed to spawn: ");
                extend(&mut m, &chars_of(s.as_str()));
                m
            },
            HostSupervisorError::ExitedBeforeReadiness { code, signal } => {
                let mut m = chars_of("desktop Host exited before readiness (code ");
                extend(&mut m, &code_debug_exec(*code));
                extend(&mut m, &chars_of(", signal "));
                extend(&mut m, &code_debug_exec(*signal));
                extend(&mut m, &chars_of(")"));
                m
            },
            HostSupervisorError::Readiness(e) => chars_of(e.message().as_str()),
            HostSupervisorError::Io(s) => {
                let mut m = chars_of("io: ");
                extend(&mut m, &chars_of(s.as_str()));
                m
            },
            HostSupervisorError::Other(s) => chars_of(s.as_str()),
        };
        string_of(&m)
    }
}

// ---------------------------------------------------------------------------
// The supervisor's state
// ---------------------------------------------------------------------------

/// Where the supervised host stands.
#[derive(Debug, Clone, Copy, PartialEq, Eq, Structural)]
pub enum SupervisorPhase {
    Starting,
    Ready,
    Shutdown,
}

/// The supervisor's bookkeeping: the phase, the generation of the running
/// child (bumped at each successful start), whether a child is held,
/// whether it was shut down, the generation whose exit a restart caused,
/// and the cached origin of the running host.
pub struct SupervisorCore {
    phase: SupervisorPhase,
    generation: u64,
    has_child: bool,
    shut_down: bool,
    intentional_restart_generation: u64,
    origin: Option<Origin>,
}

/// The supervisor as values.
pub ghost struct SupervisorView {
    pub phase: SupervisorPhase,
    pub generation: u64,
    pub has_child: bool,
    pub shut_down: bool,
    pub intentional_restart_generation: u64,
    pub origin: Option<Seq<char>>,
}

impl View for SupervisorCore {
    type V = SupervisorView;

    closed spec fn view(&self) -> SupervisorView {
        SupervisorView {
            phase: self.phase,
            generation: self.generation,
            has_child: self.has_child,
            shut_down: self.shut_down,
            intentional_restart_generation: self.intentional_restart_generation,
            origin: match self.origin {
                Some(o) => Some(o@),
                None => None,
            },
        }
    }
}

/// What a start request does.
pub enum StartDecision {
    /// Refused with this error.
    Refuse(HostSupervisorError),
    /// The host is up: its origin.
    Reuse(Origin),
    /// Spawn a new host and wait for its readiness.
    Spawn,
}

/// How waiting for the readiness line ended.
pub enum ReadinessOutcome {
    Ready(Origin),
    Failed(ReadinessError),
    ChannelClosed,
    /// The wait, in milliseconds, ran out.
    TimedOut(u64),
}

/// The supervisor right after a restart request was accepted.
pub open spec fn restarted(v: SupervisorView) -> SupervisorView {
    SupervisorView {
        phase: SupervisorPhase::Starting,
        has_child: false,
        intentional_restart_generation: v.generation,
        origin: None,
        ..v
    }
}

/// The exit of generation `g` is reported as unexpected.
pub open spec fn exit_reported(v: SupervisorView, g: u64) -> bool {
    !v.shut_down && v.intentional_restart_generation != g
}

/// The generation after `g`: the next one, never 0.
pub open spec fn next_generation(g: u64) -> u64 {
    if g == u64::MAX {
        1
    } else {
        (g + 1) as u64
    }
}

impl SupervisorCore {
    /// A supervisor that has started nothing.
    pub fn new() -> (r: Self)
        ensures
            r@ == (SupervisorView {
                phase: SupervisorPhase::Starting,
                generation: 0,
                has_child: false,
                shut_down: false,
                intentional_restart_generation: 0,
                origin: None,
            }),
    {
        SupervisorCore {
            phase: SupervisorPhase::Starting,
            generation: 0,
            has_child: false,
            shut_down: false,
            intentional_restart_generation: 0,
            origin: None,
        }
    }

    /// A start: refused after shutdown, the cached origin while the host
    /// runs, else a spawn.
    pub fn start_request(&self) -> (r: StartDecision)
        ensures
            self@.shut_down ==> (r matches StartDecision::Refuse(e) && e@ == HostFault::AlreadyShutdown),
            !self@.shut_down && self@.origin is Some ==> (r matches StartDecision::Reuse(o) && o@
                == self@.origin->0),
            !self@.shut_down && self@.origin is None ==> r is Spawn,
    {
        if self.shut_down {
            return StartDecision::Refuse(HostSupervisorError::AlreadyShutdown);
        }
        match &self.origin {
            Some(o) => StartDecision::Reuse(o.copy()),
            None => StartDecision::Spawn,
        }
    }

    /// The spawned host's readiness outcome. A ready host is held under a
    /// new generation and its origin cached; any other outcome leaves the
    /// supervisor as it was (the child is killed) and is the start's error.
    pub fn on_readiness(&mut self, outcome: ReadinessOutcome) -> (r: Result<
        (Origin, u64),
        HostSupervisorError,
    >)
        ensures
            match outcome {
                ReadinessOutcome::Ready(o) => r matches Ok((x, g)) && x@ == o@ && g
                    == next_generation(old(self)@.generation) && final(self)@ == (SupervisorView {
                    phase: SupervisorPhase::Ready,
                    generation: g,
                    has_child: true,
                    origin: Some(o@),
                    ..old(self)@
                }),
                ReadinessOutcome::Failed(e) => r matches Err(x) && x@ == HostFault::Readiness(e@)
                    && final(self)@ == old(self)@,
                ReadinessOutcome::ChannelClosed => r matches Err(x) && x@ == HostFault::Other(
                    "readiness channel closed unexpectedly"@,
                ) && final(self)@ == old(self)@,
                ReadinessOutcome::TimedOut(ms) => r matches Err(x) && x@
                    == HostFault::ReadinessTimeout(ms) && final(self)@ == old(self)@,
            },
    {
        match outcome {
            ReadinessOutcome::Ready(origin) => {
                let g = if self.generation == u64::MAX {
                    1
                } else {
                    self.generation + 1
                };
                self.generation = g;
                self.has_child = true;
                self.phase = SupervisorPhase::Ready;
                self.origin = Some(origin.copy());
                Ok((origin, g))
            },
            ReadinessOutcome::Failed(e) => Err(HostSupervisorError::Readiness(e)),
            ReadinessOutcome::ChannelClosed => Err(
                HostSupervisorError::Other(String::from_str("readiness channel closed unexpectedly")),
            ),
            ReadinessOutcome::TimedOut(ms) => Err(HostSupervisorError::ReadinessTimeout(ms)),
        }
    }

    /// A restart: refused after shutdown; else the running child's exit is
    /// marked as intended, the child is killed and the origin forgotten, and
    /// a start follows.
    pub fn restart_request(&mut self) -> (r: Result<(), HostSupervisorError>)
        ensures
            old(self)@.shut_down ==> (r matches Err(e) && e@ == HostFault::AlreadyShutdown
                && final(self)@ == old(self)@),
            !old(self)@.shut_down ==> r is Ok && final(self)@ == restarted(old(self)@),
    {
        if self.shut_down {
            return Err(HostSupervisorError::AlreadyShutdown);
        }
        self.intentional_restart_generation = self.generation;
        self.has_child = false;
        self.phase = SupervisorPhase::Starting;
        self.origin = None;
        Ok(())
    }

    /// Shuts the host down for good: the child is killed.
    pub fn shutdown(&mut self)
        ensures
            final(self)@ == (SupervisorView {
                phase: SupervisorPhase::Shutdown,
                has_child: false,
                shut_down: true,
                ..old(self)@
            }),
    {
        self.shut_down = true;
        self.phase = SupervisorPhase::Shutdown;
        self.has_child = false;
    }

    /// The exit monitor of generation `g` takes the child to wait on it:
    /// only when `g` is still current and a child is held. Otherwise the
    /// exit counts as a clean one (code 0).
    pub fn take_exited_child(&mut self, g: u64) -> (r: bool)
        ensures
            r == (old(self)@.generation == g && old(self)@.has_child),
            r ==> final(self)@ == (SupervisorView { has_child: false, ..old(self)@ }),
            !r ==> final(self)@ == old(self)@,
    {
        if self.generation == g && self.has_child {
            self.has_child = false;
            true
        } else {
            false
        }
    }

    /// Whether the exit of generation `g` is reported as unexpected: not
    /// after a shutdown, and not when a restart caused it (that mark is used
    /// up). A reported exit forgets the origin, and the next start spawns.
    pub fn on_exit(&mut self, g: u64) -> (report: bool)
        ensures
            report == exit_reported(old(self)@, g),
            old(self)@.shut_down ==> final(self)@ == old(self)@,
            !old(self)@.shut_down && old(self)@.intentional_restart_generation == g ==> final(self)@ == (SupervisorView { intentional_restart_generation: 0, ..old(self)@ }),
            report ==> final(self)@ == (SupervisorView {
                phase: SupervisorPhase::Starting,
                origin: None,
                ..old(self)@
            }),
    {
        if self.shut_down {
            return false;
        }
        if self.intentional_restart_generation == g {
            self.intentional_restart_generation = 0;
            return false;
        }
        self.origin = None;
        self.phase = SupervisorPhase::Starting;
        true
    }
}

/// The exit that a restart causes (that of the generation it replaced) is
/// never reported, nor is any exit after a shutdown; a successful start
/// always moves to a new, nonzero generation.
pub proof fn law_intended_exits_are_not_reported(v: SupervisorView, g: u64)
    ensures
        !v.shut_down ==> !exit_reported(restarted(v), v.generation),
        v.shut_down ==> !exit_reported(v, g),
        next_generation(v.generation) != v.generation,
        next_generation(v.generation) != 0,
{
}

// ---------------------------------------------------------------------------
// Startup output
// ---------------------------------------------------------------------------

/// How many trailing characters of `s` fit in `cap` bytes: the longest
/// suffix of at most `cap` bytes.
pub open spec fn suffix_fit(s: Seq<char>, cap: int) -> int
    decreases s.len(),
{
    if s.len() == 0 || utf8_width(s.last()) > cap {
        0
    } else {
        1 + suffix_fit(s.drop_last(), cap - utf8_width(s.last()))
    }
}

/// The output buffer after appending `chunk`: its last
/// `MAX_STARTUP_OUTPUT_CHARS` bytes, cut at a character boundary.
pub open spec fn bounded_output(buf: Seq<char>, chunk: Seq<char>) -> Seq<char> {
    let all = buf + chunk;
    all.skip(all.len() - suffix_fit(all, MAX_STARTUP_OUTPUT_CHARS as int))
}

proof fn lemma_suffix_fit_bounds(s: Seq<char>, cap: int)
    ensures
        0 <= suffix_fit(s, cap) <= s.len(),
    decreases s.len(),
{
    if s.len() > 0 && utf8_width(s.last()) <= cap {
        lemma_suffix_fit_bounds(s.drop_last(), cap - utf8_width(s.last()));
    }
}

/// Appends a chunk of host output, keeping only the last
/// `MAX_STARTUP_OUTPUT_CHARS` bytes (cut at a character boundary).
pub fn append_output(buffer: &mut Vec<char>, chunk: &str)
    ensures
        final(buffer)@ == bounded_output(old(buffer)@, chunk@),
{
    let ghost all = old(buffer)@ + chunk@;
    extend(buffer, &chars_of(chunk));
    let ghost cap = MAX_STARTUP_OUTPUT_CHARS as int;
    let mut j: usize = buffer.len();
    let mut used: usize = 0;
    let mut full = false;
    assert(all.take(j as int) =~= all);
    while j > 0 && !full
        invariant
            j <= buffer.len(),
            buffer@ == all,
            cap == MAX_STARTUP_OUTPUT_CHARS as int,
            used <= MAX_STARTUP_OUTPUT_CHARS,
            suffix_fit(all, cap) == (all.len() - j) + suffix_fit(all.take(j as int), cap - used),
            full ==> j > 0 && utf8_width(all[j - 1]) > cap - used,
        decreases j + (if full { 0int } else { 1int }),
    {
        let w = len_utf8(buffer[j - 1]);
        if w > MAX_STARTUP_OUTPUT_CHARS - used {
            full = true;
        } else {
            proof {
                let t = all.take(j as int);
                assert(t.last() == all[j - 1]);
                assert(t.drop_last() =~= all.take(j - 1));
            }
            used = used + w;
            j -= 1;
        }
    }
    proof {
        lemma_suffix_fit_bounds(all.take(j as int), cap - used);
        if j > 0 {
            assert(all.take(j as int).last() == all[j - 1]);
        }
        assert(suffix_fit(all.take(j as int), cap - used) == 0);
    }
    let kept = crate::text::slice_of(buffer, j, buffer.len());
    assert(kept@ =~= bounded_output(old(buffer)@, chunk@));
    *buffer = kept;
}

} // verus!
