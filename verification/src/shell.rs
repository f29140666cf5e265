//! The command line: what the arguments ask for, whether the user agreed,
//! and the phases a session goes through.

use crate::generator::GenerationRequest;
use crate::text::{
    chars_of, first_where, lemma_first_where, parse_u64, parse_up_to, skip_blank, solid,
};
use vstd::prelude::*;
use vstd::string::*;

verus! {

/// Why the arguments were not accepted.
#[derive(Clone, Copy, Debug, PartialEq, Eq, Structural)]
pub enum ArgumentError {
    /// Too few or too many arguments, or an unknown flag.
    Usage,
    /// The count is not a positive integer.
    InvalidCount,
    /// The size limit is not a positive integer.
    InvalidMaxSize,
}

/// The flag that asks for the test signature.
pub open spec fn signature_flag() -> Seq<char> {
    "--signature"@
}

/// The positive integer that `s` denotes, where it denotes one that fits a
/// machine word.
pub open spec fn positive(s: Seq<char>) -> Option<nat> {
    match parse_up_to(s, usize::MAX as nat) {
        Some(value) => if value >= 1 {
            Some(value)
        } else {
            None
        },
        None => None,
    }
}

/// Whether the arguments have the right number and, where there is a fifth,
/// it is the signature flag. The first argument is the program's name.
pub open spec fn well_shaped(args: Seq<String>) -> bool {
    args.len() == 4 || (args.len() == 5 && args[4]@ == signature_flag())
}

/// What the arguments ask for: the base path, the count, the size limit and
/// whether signatures are wanted; or what is wrong with them.
pub open spec fn requested(args: Seq<String>) -> Result<
    (Seq<char>, nat, nat, bool),
    ArgumentError,
> {
    if !well_shaped(args) {
        Err(ArgumentError::Usage)
    } else {
        match positive(args[2]@) {
            None => Err(ArgumentError::InvalidCount),
            Some(count) => match positive(args[3]@) {
                None => Err(ArgumentError::InvalidMaxSize),
                Some(max_size) => Ok((args[1]@, count, max_size, args.len() == 5)),
            },
        }
    }
}

/// Whether `word` is `yes`, in any mix of upper and lower case.
pub open spec fn is_yes(word: Seq<char>) -> bool {
    &&& word.len() == 3
    &&& (word[0] == 'y' || word[0] == 'Y')
    &&& (word[1] == 'e' || word[1] == 'E')
    &&& (word[2] == 's' || word[2] == 'S')
}

/// Whether an answer agrees: apart from white space around it, it is `yes`
/// in any mix of upper and lower case.
pub open spec fn agrees(answer: Seq<char>) -> bool {
    let start = first_where(answer, 0, solid());
    &&& start + 3 <= answer.len()
    &&& is_yes(answer.subrange(start, start + 3))
    &&& first_where(answer, start + 3, solid()) == answer.len()
}

/// Reads `text` as a positive integer that fits a machine word.
pub fn parse_positive(text: &str) -> (value: Option<usize>)
    ensures
        match positive(text@) {
            Some(number) => value == Some(number as usize),
            None => value is None,
        },
{
    let chars = chars_of(text);
    match parse_u64(chars.as_slice()) {
        Some(number) => {
            if number >= 1 && number <= usize::MAX as u64 {
                Some(number as usize)
            } else {
                None
            }
        },
        None => None,
    }
}

/// Reads the arguments of the command line, the program's name first.
pub fn parse_args(args: &Vec<String>) -> (request: Result<GenerationRequest, ArgumentError>)
    ensures
        match request {
            Ok(request) => request.valid() && requested(args@) == Ok::<_, ArgumentError>(
                (
                    request.base_path@,
                    request.count as nat,
                    request.max_size as nat,
                    request.use_signature,
                ),
            ),
            Err(error) => requested(args@) == Err::<(Seq<char>, nat, nat, bool), _>(error),
        },
{
    let use_signature = args.len() == 5;
    if args.len() != 4 && !use_signature {
        return Err(ArgumentError::Usage);
    }
    if use_signature {
        let flag = String::from_str("--signature");
        if args[4] != flag {
            return Err(ArgumentError::Usage);
        }
    }
    let count = match parse_positive(args[2].as_str()) {
        Some(count) => count,
        None => {
            return Err(ArgumentError::InvalidCount);
        },
    };
    let max_size = match parse_positive(args[3].as_str()) {
        Some(max_size) => max_size,
        None => {
            return Err(ArgumentError::InvalidMaxSize);
        },
    };
    Ok(GenerationRequest { base_path: args[1].clone(), count, max_size, use_signature })
}

/// Whether the user's answer agrees to the run.
pub fn is_confirmed(answer: &str) -> (yes: bool)
    ensures
        yes == agrees(answer@),
{
    let chars = chars_of(answer);
    let start = skip_blank(chars.as_slice(), 0);
    proof {
        lemma_first_where(chars@, 0, solid());
    }
    if chars.len() - start < 3 {
        return false;
    }
    let y = chars[start];
    let e = chars[start + 1];
    let s = chars[start + 2];
    if !((y == 'y' || y == 'Y') && (e == 'e' || e == 'E') && (s == 's' || s == 'S')) {
        return false;
    }
    skip_blank(chars.as_slice(), start + 3) == chars.len()
}

/// Where a session stands.
#[derive(Clone, Copy, Debug, PartialEq, Eq, Structural)]
pub enum Phase {
    /// The arguments are being read.
    ParsingArgs,
    /// The user is being asked.
    Confirming,
    /// The tree is being made.
    Generating,
    /// The inode usage is being asked for and the summary shown.
    Reporting,
    /// The session has run its course.
    Done,
    /// The session was given up before anything was created.
    Aborted,
}

/// What happened in a phase.
#[derive(Clone, Copy, Debug, PartialEq, Eq, Structural)]
pub enum Event {
    /// The arguments were accepted.
    ArgumentsAccepted,
    /// The arguments were refused.
    ArgumentsRejected,
    /// The user agreed.
    Confirmed,
    /// The user did not agree.
    Declined,
    /// Every unit was stored.
    GenerationSucceeded,
    /// A unit could not be stored.
    GenerationFailed,
    /// The inode usage was told.
    UsageReported,
    /// The inode usage could not be told.
    ProbeFailed,
}

/// A session: its phase, and whether something has failed in it.
#[derive(Clone, Copy, Debug, PartialEq, Eq, Structural)]
pub struct Session {
    pub phase: Phase,
    pub failed: bool,
}

/// The session that follows `session` on `event`; `None` where the event
/// does not belong to the session's phase.
pub open spec fn next_session(session: Session, event: Event) -> Option<Session> {
    match (session.phase, event) {
        (Phase::ParsingArgs, Event::ArgumentsAccepted) => Some(
            Session { phase: Phase::Confirming, failed: session.failed },
        ),
        (Phase::ParsingArgs, Event::ArgumentsRejected) => Some(
            Session { phase: Phase::Aborted, failed: true },
        ),
        (Phase::Confirming, Event::Confirmed) => Some(
            Session { phase: Phase::Generating, failed: session.failed },
        ),
        (Phase::Confirming, Event::Declined) => Some(
            Session { phase: Phase::Aborted, failed: true },
        ),
        (Phase::Generating, Event::GenerationSucceeded) => Some(
            Session { phase: Phase::Reporting, failed: session.failed },
        ),
        (Phase::Generating, Event::GenerationFailed) => Some(
            Session { phase: Phase::Done, failed: true },
        ),
        (Phase::Reporting, Event::UsageReported) => Some(
            Session { phase: Phase::Done, failed: session.failed },
        ),
        (Phase::Reporting, Event::ProbeFailed) => Some(
            Session { phase: Phase::Done, failed: true },
        ),
        _ => None,
    }
}

/// Where a session stands after a sequence of events, each belonging to the
/// phase it meets; `None` where one does not.
pub open spec fn after(session: Session, events: Seq<Event>) -> Option<Session>
    decreases events.len(),
{
    if events.len() == 0 {
        Some(session)
    } else {
        match after(session, events.drop_last()) {
            Some(before) => next_session(before, events.last()),
            None => None,
        }
    }
}

/// The session before anything has happened.
pub open spec fn initial() -> Session {
    Session { phase: Phase::ParsingArgs, failed: false }
}

/// The status with which a session that has ended leaves: zero after a run
/// in which nothing failed, one otherwise.
pub open spec fn exit_status(session: Session) -> Option<u8> {
    match session.phase {
        Phase::Aborted => Some(1u8),
        Phase::Done => Some(
            if session.failed {
                1u8
            } else {
                0u8
            },
        ),
        _ => None,
    }
}

impl Session {
    /// The session before anything has happened.
    pub fn new() -> (session: Session)
        ensures
            session == initial(),
    {
        Session { phase: Phase::ParsingArgs, failed: false }
    }

    /// The session that follows on `event`; `None` where the event does not
    /// belong to the phase.
    pub fn advance(self, event: Event) -> (next: Option<Session>)
        ensures
            next == next_session(self, event),
    {
        match (self.phase, event) {
            (Phase::ParsingArgs, Event::ArgumentsAccepted) => Some(
                Session { phase: Phase::Confirming, failed: self.failed },
            ),
            (Phase::ParsingArgs, Event::ArgumentsRejected) => Some(
                Session { phase: Phase::Aborted, failed: true },
            ),
            (Phase::Confirming, Event::Confirmed) => Some(
                Session { phase: Phase::Generating, failed: self.failed },
            ),
            (Phase::Confirming, Event::Declined) => Some(
                Session { phase: Phase::Aborted, failed: true },
            ),
            (Phase::Generating, Event::GenerationSucceeded) => Some(
                Session { phase: Phase::Reporting, failed: self.failed },
            ),
            (Phase::Generating, Event::GenerationFailed) => Some(
                Session { phase: Phase::Done, failed: true },
            ),
            (Phase::Reporting, Event::UsageReported) => Some(
                Session { phase: Phase::Done, failed: self.failed },
            ),
            (Phase::Reporting, Event::ProbeFailed) => Some(
                Session { phase: Phase::Done, failed: true },
            ),
            _ => None,
        }
    }

    /// The status with which the session leaves, once it has ended.
    pub fn exit_code(self) -> (status: Option<u8>)
        ensures
            status == exit_status(self),
    {
        match self.phase {
            Phase::Aborted => Some(1),
            Phase::Done => Some(
                if self.failed {
                    1
                } else {
                    0
                },
            ),
            _ => None,
        }
    }
}

/// A session that has ended takes no further event.
pub proof fn lemma_ended_sessions_stay(session: Session, event: Event)
    requires
        session.phase == Phase::Done || session.phase == Phase::Aborted,
    ensures
        next_session(session, event) is None,
{
}

/// Whatever happens, a session gets from the reading of arguments to the
/// making of the tree in one way only: the arguments were accepted, and then
/// the user agreed. So rejected arguments and a declined question leave
/// nothing created.
pub proof fn lemma_generation_needs_consent(events: Seq<Event>)
    requires
        after(initial(), events) is Some,
        after(initial(), events)->0.phase == Phase::Generating,
    ensures
        events == seq![Event::ArgumentsAccepted, Event::Confirmed],
{
    assert(events.len() >= 1);
    let confirming = after(initial(), events.drop_last());
    assert(confirming is Some && confirming->0.phase == Phase::Confirming);
    assert(events.last() == Event::Confirmed);
    let before = events.drop_last();
    assert(before.len() >= 1);
    let parsing = after(initial(), before.drop_last());
    assert(parsing is Some && parsing->0.phase == Phase::ParsingArgs);
    assert(before.last() == Event::ArgumentsAccepted);
    lemma_parsing_is_first(before.drop_last());
    assert(events =~= seq![Event::ArgumentsAccepted, Event::Confirmed]);
}

/// A session is given up in one of two ways only: the arguments were
/// rejected, or they were accepted and the user did not agree. Either way the
/// making of the tree was never reached.
pub proof fn lemma_aborted_before_generation(events: Seq<Event>)
    requires
        after(initial(), events) is Some,
        after(initial(), events)->0.phase == Phase::Aborted,
    ensures
        events == seq![Event::ArgumentsRejected] || events == seq![
            Event::ArgumentsAccepted,
            Event::Declined,
        ],
{
    let before = events.drop_last();
    let earlier = after(initial(), before);
    assert(earlier is Some);
    if earlier->0.phase == Phase::ParsingArgs {
        lemma_parsing_is_first(before);
        assert(events =~= seq![Event::ArgumentsRejected]);
    } else {
        assert(earlier->0.phase == Phase::Confirming);
        let parsing = after(initial(), before.drop_last());
        assert(parsing is Some && parsing->0.phase == Phase::ParsingArgs);
        lemma_parsing_is_first(before.drop_last());
        assert(events =~= seq![Event::ArgumentsAccepted, Event::Declined]);
    }
}

/// A session is reading arguments only before its first event.
proof fn lemma_parsing_is_first(events: Seq<Event>)
    requires
        after(initial(), events) is Some,
        after(initial(), events)->0.phase == Phase::ParsingArgs,
    ensures
        events.len() == 0,
{
}

/// The inode usage is asked for only after every unit was stored, and a
/// session leaves with status zero only after the usage was told.
pub proof fn lemma_success_needs_every_phase(events: Seq<Event>)
    requires
        after(initial(), events) is Some,
        exit_status(after(initial(), events)->0) == Some(0u8),
    ensures
        events == seq![
            Event::ArgumentsAccepted,
            Event::Confirmed,
            Event::GenerationSucceeded,
            Event::UsageReported,
        ],
{
    let done = after(initial(), events)->0;
    assert(done.phase == Phase::Done && !done.failed);
    let e3 = events.drop_last();
    let reporting = after(initial(), e3);
    assert(reporting is Some && reporting->0.phase == Phase::Reporting);
    assert(events.last() == Event::UsageReported);
    assert(e3.len() >= 1);
    let generating = after(initial(), e3.drop_last());
    assert(generating is Some && generating->0.phase == Phase::Generating);
    assert(e3.last() == Event::GenerationSucceeded);
    lemma_generation_needs_consent(e3.drop_last());
    assert(events =~= seq![
        Event::ArgumentsAccepted,
        Event::Confirmed,
        Event::GenerationSucceeded,
        Event::UsageReported,
    ]);
}

} // verus!
