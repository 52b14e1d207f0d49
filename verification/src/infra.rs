//! Plain facts about running commands: whether mutating commands really
//! run, which exit statuses a command may end with, how its failure reads,
//! how many checks run at once, and the clock.
use vstd::prelude::*;

use crate::text::{concat, decimal, decimal_string, trim, trimmed_chars, string_of};

verus! {

/// Whether commands that change the system really run.
#[derive(Debug, Clone, Copy, PartialEq, Eq, Structural)]
pub enum MutationMode {
    Real,
    Skip,
}

impl MutationMode {
    /// A dry run skips mutating commands.
    pub fn from_dry_run(dry_run: bool) -> (r: Self)
        ensures
            r == if dry_run { MutationMode::Skip } else { MutationMode::Real },
    {
        if dry_run {
            MutationMode::Skip
        } else {
            MutationMode::Real
        }
    }
}

/// Which exit statuses a command may end with.
#[derive(Debug)]
pub enum CommandCheck {
    Success,
    Allow(Vec<i32>),
    IgnoreStatus,
}

/// An exit status passes the check: success always does; with `Allow`,
/// so does an exit code in the list; with `IgnoreStatus`, every status.
pub open spec fn allowed(success: bool, code: Option<i32>, check: CommandCheck) -> bool {
    match check {
        CommandCheck::Success => success,
        CommandCheck::Allow(codes) => success || (code matches Some(c) && codes@.contains(c)),
        CommandCheck::IgnoreStatus => true,
    }
}

/// Whether an exit status (success, and the exit code when the process
/// exited rather than being signalled) passes the check.
pub fn status_allowed(success: bool, code: Option<i32>, check: &CommandCheck) -> (r: bool)
    ensures
        r == allowed(success, code, *check),
{
    match check {
        CommandCheck::Success => success,
        CommandCheck::Allow(codes) => {
            if success {
                return true;
            }
            match code {
                None => false,
                Some(c) => {
                    let mut i: usize = 0;
                    while i < codes.len()
                        invariant
                            i <= codes@.len(),
                            code == Some(c),
                            !success,
                            *check matches CommandCheck::Allow(cs) && cs@ == codes@,
                            forall|k: int| 0 <= k < i ==> codes@[k] != c,
                        decreases codes@.len() - i,
                    {
                        if codes[i] == c {
                            assert(codes@.contains(c)) by {
                                assert(codes@[i as int] == c);
                            }
                            return true;
                        }
                        i = i + 1;
                    }
                    false
                },
            }
        },
        CommandCheck::IgnoreStatus => true,
    }
}

/// Told to listeners when a command starts.
#[derive(Debug)]
pub struct CommandStartEvent {
    pub command_display: String,
    pub is_mutation: bool,
}

/// How many checks of one manager run at once: the requested number, at
/// least one and at most the manager's cap (itself at least one).
pub fn effective_parallelism(requested: usize, manager_cap: usize) -> (r: usize)
    ensures
        r == if requested < 1 {
            1
        } else if requested > (if manager_cap < 1 { 1 } else { manager_cap }) {
            if manager_cap < 1 { 1 } else { manager_cap }
        } else {
            requested
        },
        1 <= r,
{
    let cap = if manager_cap < 1 { 1 } else { manager_cap };
    if requested < 1 {
        1
    } else if requested > cap {
        cap
    } else {
        requested
    }
}

/// The decimal text of a signed exit code.
pub open spec fn signed_decimal(n: i32) -> Seq<char> {
    if n < 0 {
        seq!['-'] + decimal((-(n as int)) as nat)
    } else {
        decimal(n as nat)
    }
}

fn signed_decimal_string(n: i32) -> (r: String)
    ensures
        r@ == signed_decimal(n),
{
    proof {
        reveal_strlit("-");
    }
    if n < 0 {
        let m: u64 = (-(n as i64)) as u64;
        concat("-", decimal_string(m).as_str())
    } else {
        decimal_string(n as u64)
    }
}

/// How a failed command reads: `<command> failed (exit <code>)`, with
/// `signal` for a signalled process, followed by `: <stderr>` when stderr
/// holds more than whitespace.
pub open spec fn command_failure_text(command: Seq<char>, code: Option<i32>, stderr: Seq<char>) -> Seq<char> {
    let c = match code {
        Some(n) => signed_decimal(n),
        None => "signal"@,
    };
    let head = command + " failed (exit "@ + c + ")"@;
    if trim(stderr).len() == 0 {
        head
    } else {
        head + ": "@ + trim(stderr)
    }
}

pub fn command_failure_message(command: &str, code: Option<i32>, stderr: &str) -> (r: String)
    ensures
        r@ == command_failure_text(command@, code, stderr@),
{
    let c = match code {
        Some(n) => signed_decimal_string(n),
        None => "signal".to_owned(),
    };
    let a = concat(command, " failed (exit ");
    let b = concat(a.as_str(), c.as_str());
    let head = concat(b.as_str(), ")");
    let detail = trimmed_chars(stderr);
    if detail.len() == 0 {
        head
    } else {
        let h = concat(head.as_str(), ": ");
        concat(h.as_str(), string_of(detail.as_slice()).as_str())
    }
}

/// Where the current time comes from.
#[derive(Debug, Clone, Copy)]
pub enum Clock {
    System,
    /// A fixed instant, in seconds since the Unix epoch.
    Fixed(u64),
}

#[verifier::external_type_specification]
#[verifier::external_body]
pub struct ExSystemTime(std::time::SystemTime);

#[verifier::external_type_specification]
#[verifier::external_body]
pub struct ExSystemTimeError(std::time::SystemTimeError);

/// Calls `std::time::SystemTime::now`. Nothing is claimed of the value: it
/// is the time.
#[verifier::external_body]
fn time_now() -> (r: std::time::SystemTime) {
    std::time::SystemTime::now()
}

/// Calls `SystemTime::duration_since` with `UNIX_EPOCH`. Nothing is claimed
/// of the value: an error stands for an instant before the epoch.
#[verifier::external_body]
fn since_unix_epoch(t: &std::time::SystemTime) -> (r: Result<std::time::Duration, std::time::SystemTimeError>) {
    t.duration_since(std::time::UNIX_EPOCH)
}

/// Calls `Duration::as_secs`. Nothing is claimed of the value: a duration
/// is opaque here.
#[verifier::external_body]
fn whole_secs(d: &std::time::Duration) -> (r: u64) {
    d.as_secs()
}

/// The current time as whole seconds since the Unix epoch, zero before it.
fn system_now_secs() -> (r: u64) {
    let now = time_now();
    match since_unix_epoch(&now) {
        Ok(d) => whole_secs(&d),
        Err(_) => 0,
    }
}

impl Clock {
    pub fn system() -> (r: Self)
        ensures
            r is System,
    {
        Clock::System
    }

    pub fn fixed(time: u64) -> (r: Self)
        ensures
            r == Clock::Fixed(time),
    {
        Clock::Fixed(time)
    }

    /// The current time; a fixed clock always gives its instant.
    pub fn now(self) -> (r: u64)
        ensures
            self matches Clock::Fixed(t) ==> r == t,
    {
        match self {
            Clock::System => system_now_secs(),
            Clock::Fixed(t) => t,
        }
    }
}

} // verus!
