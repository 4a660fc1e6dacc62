//! Start-up of the one instance that may run at a time.
//!
//! Exclusivity rests on a token of the operating system that at most one
//! live process holds and that is free again as soon as its holder is gone.
//! Taking the token, asking the operator, signalling the old instance and
//! waiting are the caller's part. What to do next is decided here: the
//! caller starts with `start`, performs the action it is given, and reports
//! what came of it to `step`, until the action is to proceed or to abort.

use crate::decimal::{parse_i32, signed_value};
use crate::text::{same_text, to_chars, trim, trim_bounds};
use vstd::prelude::*;
use vstd::slice::slice_subrange;

verus! {

/// How often the token is tried again after the old instance was signalled.
pub const RETRY_COUNT: u32 = 20;

/// How long to wait before each further try, in milliseconds.
pub const RETRY_DELAY_MILLIS: u64 = 50;

/// How an attempt to take the token ended.
#[derive(Clone, Copy, Debug, PartialEq, Eq, Structural)]
pub enum Attempt {
    /// This process holds the token now.
    Exclusive,
    /// Another live process holds it.
    Contended,
    /// The attempt itself failed, so nothing is known of other instances.
    Failed,
}

/// What the operator answered when asked whether to stop the old instance.
#[derive(Clone, Copy, Debug, PartialEq, Eq, Structural)]
pub enum Answer {
    Yes,
    No,
    Unclear,
}

/// Where start-up stands.
#[derive(Clone, Copy, Debug, PartialEq, Eq, Structural)]
pub enum GuardState {
    /// The token has not been tried yet.
    Starting,
    /// Another instance holds the token and the operator is being asked.
    Asking,
    /// The operator agreed and the old instance is being signalled.
    Signalling,
    /// The old instance was signalled and the token is tried again; `left`
    /// further tries remain behind the one under way.
    Retrying { left: u32 },
    /// Start-up is over and the instance serves, with or without the token.
    Settled { exclusive: bool },
    /// Start-up has failed and the process ends.
    Aborted,
}

/// What the caller reports.
#[derive(Clone, Copy, Debug, PartialEq, Eq, Structural)]
pub enum GuardEvent {
    /// An attempt to take the token ended.
    Attempted(Attempt),
    /// The operator answered.
    Answered(Answer),
    /// The operator's answer could not be read.
    InputFailed,
    /// The termination signal was sent to the old instance, or could not be.
    Signalled { delivered: bool },
}

/// What the caller is to do.
#[derive(Clone, Copy, Debug, PartialEq, Eq, Structural)]
pub enum GuardAction {
    /// Try to take the token.
    Acquire,
    /// Ask the operator whether to stop the old instance.
    Prompt,
    /// Tell the operator to choose yes or no, and ask again.
    Reprompt,
    /// Send the termination signal to the recorded old instance.
    Signal,
    /// Wait for the retry delay, then try to take the token.
    WaitAndAcquire,
    /// Go on to serve. Only an exclusive instance records its process id.
    Proceed { exclusive: bool },
    /// End the process with a failure code.
    Abort,
}

/// Why no old instance can be signalled.
#[derive(Clone, Copy, Debug, PartialEq, Eq, Structural)]
pub enum PidError {
    /// A record was read, and it holds no process id.
    Unparsable,
    /// Neither record could be read.
    Missing,
}

/// The operator's answer in `line`, once trimmed: `y`, `Y` and `yes` agree;
/// `n`, `N`, `no` and the empty answer decline; anything else is unclear.
pub open spec fn answer_of(line: Seq<char>) -> Answer {
    let word = trim(line);
    if word == "y"@ || word == "Y"@ || word == "yes"@ {
        Answer::Yes
    } else if word == "n"@ || word == "N"@ || word == "no"@ || word.len() == 0 {
        Answer::No
    } else {
        Answer::Unclear
    }
}

/// What a state is waiting for the caller to do.
pub open spec fn pending_action(state: GuardState) -> GuardAction {
    match state {
        GuardState::Starting => GuardAction::Acquire,
        GuardState::Asking => GuardAction::Prompt,
        GuardState::Signalling => GuardAction::Signal,
        GuardState::Retrying { .. } => GuardAction::WaitAndAcquire,
        GuardState::Settled { exclusive } => GuardAction::Proceed { exclusive },
        GuardState::Aborted => GuardAction::Abort,
    }
}

/// The state that follows `state` on `event`.
///
/// The first attempt settles start-up unless it finds another instance; a
/// failed attempt counts as none found, without exclusivity. On contention
/// the operator decides: declining settles without the token, an unclear
/// answer is asked again, an unreadable one aborts. Agreeing has the old
/// instance signalled; if that fails start-up aborts, else the token is
/// tried up to `RETRY_COUNT` times, and the instance goes on without it if
/// none of the tries takes it. An event that a state does not wait for
/// leaves the state as it is.
pub open spec fn next_state(state: GuardState, event: GuardEvent) -> GuardState {
    match (state, event) {
        (GuardState::Starting, GuardEvent::Attempted(Attempt::Exclusive)) => GuardState::Settled {
            exclusive: true,
        },
        (GuardState::Starting, GuardEvent::Attempted(Attempt::Contended)) => GuardState::Asking,
        (GuardState::Starting, GuardEvent::Attempted(Attempt::Failed)) => GuardState::Settled {
            exclusive: false,
        },
        (GuardState::Asking, GuardEvent::Answered(Answer::Yes)) => GuardState::Signalling,
        (GuardState::Asking, GuardEvent::Answered(Answer::No)) => GuardState::Settled {
            exclusive: false,
        },
        (GuardState::Asking, GuardEvent::Answered(Answer::Unclear)) => GuardState::Asking,
        (GuardState::Asking, GuardEvent::InputFailed) => GuardState::Aborted,
        (GuardState::Signalling, GuardEvent::Signalled { delivered }) => if delivered {
            GuardState::Retrying { left: (RETRY_COUNT - 1) as u32 }
        } else {
            GuardState::Aborted
        },
        (GuardState::Retrying { left }, GuardEvent::Attempted(attempt)) => if attempt
            == Attempt::Exclusive {
            GuardState::Settled { exclusive: true }
        } else if left > 0 {
            GuardState::Retrying { left: (left - 1) as u32 }
        } else {
            GuardState::Settled { exclusive: false }
        },
        _ => state,
    }
}

/// What the caller is to do after `event` in `state`: what the following
/// state waits for, except that an unclear answer is met with a reminder
/// before the operator is asked again.
pub open spec fn next_action(state: GuardState, event: GuardEvent) -> GuardAction {
    if state == GuardState::Asking && event == GuardEvent::Answered(Answer::Unclear) {
        GuardAction::Reprompt
    } else {
        pending_action(next_state(state, event))
    }
}

/// The state after a run of attempts that all fail to take the token.
pub open spec fn after_failed_attempts(state: GuardState, attempts: nat) -> GuardState
    decreases attempts,
{
    if attempts == 0 {
        state
    } else {
        after_failed_attempts(
            next_state(state, GuardEvent::Attempted(Attempt::Contended)),
            (attempts - 1) as nat,
        )
    }
}

/// The process id that a record of the running instance holds: a signed
/// numeral and nothing else.
pub open spec fn pid_of(record: Seq<char>) -> Result<i32, PidError> {
    match signed_value(record, 0x8000_0000, 0x7fff_ffff) {
        Some(pid) => Ok(pid as i32),
        None => Err(PidError::Unparsable),
    }
}

/// The process to signal, given what reading the two records gave. The
/// primary record decides wherever it could be read, even where it holds no
/// process id; the secondary one is only consulted in its absence.
pub open spec fn recorded_pid(primary: Option<Seq<char>>, secondary: Option<Seq<char>>) -> Result<
    i32,
    PidError,
> {
    match primary {
        Some(record) => pid_of(record),
        None => match secondary {
            Some(record) => pid_of(record),
            None => Err(PidError::Missing),
        },
    }
}

/// Where start-up begins, and what to do first.
pub fn start() -> (r: (GuardState, GuardAction))
    ensures
        r.0 == GuardState::Starting,
        r.1 == pending_action(GuardState::Starting),
{
    (GuardState::Starting, GuardAction::Acquire)
}

/// Takes start-up one step on: the state that follows, and what the caller
/// is to do next.
pub fn step(state: GuardState, event: GuardEvent) -> (r: (GuardState, GuardAction))
    ensures
        r.0 == next_state(state, event),
        r.1 == next_action(state, event),
{
    match (state, event) {
        (GuardState::Starting, GuardEvent::Attempted(Attempt::Exclusive)) => (
            GuardState::Settled { exclusive: true },
            GuardAction::Proceed { exclusive: true },
        ),
        (GuardState::Starting, GuardEvent::Attempted(Attempt::Contended)) => (
            GuardState::Asking,
            GuardAction::Prompt,
        ),
        (GuardState::Starting, GuardEvent::Attempted(Attempt::Failed)) => (
            GuardState::Settled { exclusive: false },
            GuardAction::Proceed { exclusive: false },
        ),
        (GuardState::Asking, GuardEvent::Answered(Answer::Yes)) => (
            GuardState::Signalling,
            GuardAction::Signal,
        ),
        (GuardState::Asking, GuardEvent::Answered(Answer::No)) => (
            GuardState::Settled { exclusive: false },
            GuardAction::Proceed { exclusive: false },
        ),
        (GuardState::Asking, GuardEvent::Answered(Answer::Unclear)) => (
            GuardState::Asking,
            GuardAction::Reprompt,
        ),
        (GuardState::Asking, GuardEvent::InputFailed) => (GuardState::Aborted, GuardAction::Abort),
        (GuardState::Signalling, GuardEvent::Signalled { delivered }) => {
            if delivered {
                (GuardState::Retrying { left: RETRY_COUNT - 1 }, GuardAction::WaitAndAcquire)
            } else {
                (GuardState::Aborted, GuardAction::Abort)
            }
        },
        (GuardState::Retrying { left }, GuardEvent::Attempted(attempt)) => {
            if attempt == Attempt::Exclusive {
                (GuardState::Settled { exclusive: true }, GuardAction::Proceed { exclusive: true })
            } else if left > 0 {
                (GuardState::Retrying { left: left - 1 }, GuardAction::WaitAndAcquire)
            } else {
                (
                    GuardState::Settled { exclusive: false },
                    GuardAction::Proceed { exclusive: false },
                )
            }
        },
        (GuardState::Starting, _) => (state, GuardAction::Acquire),
        (GuardState::Asking, _) => (state, GuardAction::Prompt),
        (GuardState::Signalling, _) => (state, GuardAction::Signal),
        (GuardState::Retrying { .. }, _) => (state, GuardAction::WaitAndAcquire),
        (GuardState::Settled { exclusive }, _) => (state, GuardAction::Proceed { exclusive }),
        (GuardState::Aborted, _) => (state, GuardAction::Abort),
    }
}

/// Reads the operator's answer from the line typed.
pub fn read_answer(line: &str) -> (answer: Answer)
    ensures
        answer == answer_of(line@),
{
    let chars = to_chars(line);
    let (from, to) = trim_bounds(chars.as_slice());
    let word = slice_subrange(chars.as_slice(), from, to);
    if same_text(word, to_chars("y").as_slice()) || same_text(word, to_chars("Y").as_slice())
        || same_text(word, to_chars("yes").as_slice()) {
        Answer::Yes
    } else if same_text(word, to_chars("n").as_slice()) || same_text(word, to_chars("N").as_slice())
        || same_text(word, to_chars("no").as_slice()) || word.len() == 0 {
        Answer::No
    } else {
        Answer::Unclear
    }
}

/// Reads the process id that a record holds.
pub fn parse_pid(record: &str) -> (r: Result<i32, PidError>)
    ensures
        r == pid_of(record@),
{
    let chars = to_chars(record);
    match parse_i32(chars.as_slice()) {
        Some(pid) => Ok(pid),
        None => Err(PidError::Unparsable),
    }
}

/// Decides which process the termination signal goes to. `primary` and
/// `secondary` are the contents of the two records of the running instance,
/// `None` where a record could not be read.
pub fn pid_to_signal(primary: Option<&str>, secondary: Option<&str>) -> (r: Result<i32, PidError>)
    ensures
        r == recorded_pid(
            match primary {
                Some(record) => Some(record@),
                None => None,
            },
            match secondary {
                Some(record) => Some(record@),
                None => None,
            },
        ),
{
    match primary {
        Some(record) => parse_pid(record),
        None => match secondary {
            Some(record) => parse_pid(record),
            None => Err(PidError::Missing),
        },
    }
}

/// After the old instance was signalled, a run of tries that all fail ends
/// start-up without the token once `left + 1` of them are made, and not
/// before: the retries are bounded.
pub proof fn lemma_retries_are_bounded(left: u32, attempts: nat)
    ensures
        attempts <= left ==> after_failed_attempts(GuardState::Retrying { left }, attempts)
            == (GuardState::Retrying { left: (left - attempts) as u32 }),
        attempts > left ==> after_failed_attempts(GuardState::Retrying { left }, attempts)
            == (GuardState::Settled { exclusive: false }),
    decreases attempts,
{
    if attempts > 0 {
        if left > 0 {
            lemma_retries_are_bounded((left - 1) as u32, (attempts - 1) as nat);
        } else {
            lemma_settled_stays((attempts - 1) as nat);
        }
    }
}

/// Once start-up is settled without the token, further failed tries change
/// nothing.
pub proof fn lemma_settled_stays(attempts: nat)
    ensures
        after_failed_attempts(GuardState::Settled { exclusive: false }, attempts)
            == (GuardState::Settled { exclusive: false }),
    decreases attempts,
{
    if attempts > 0 {
        lemma_settled_stays((attempts - 1) as nat);
    }
}

/// An instance that finds the token taken never goes on to serve at once:
/// from the start, only an attempt lets it proceed, and a contended attempt
/// leads to the operator first. Exclusivity is claimed only on an attempt
/// that took the token.
pub proof fn lemma_contention_is_seen_first(state: GuardState, event: GuardEvent)
    ensures
        pending_action(GuardState::Starting) == GuardAction::Acquire,
        next_action(GuardState::Starting, GuardEvent::Attempted(Attempt::Contended))
            == GuardAction::Prompt,
        next_action(GuardState::Starting, event) is Proceed ==> event == GuardEvent::Attempted(
            Attempt::Exclusive,
        ) || event == GuardEvent::Attempted(Attempt::Failed),
        !(state is Settled) && next_state(state, event) == (GuardState::Settled {
            exclusive: true,
        }) ==> event == GuardEvent::Attempted(Attempt::Exclusive),
{
}

} // verus!
