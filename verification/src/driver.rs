//! The course of one item, from the question whether it names a file to its outcome.
//!
//! The driver touches nothing itself. It asks for one action at a time and is told how the
//! action went; from that it decides what comes next. Whoever carries the actions out reads
//! and writes files, runs the codecs and reports. A failure ends the item it belongs to and
//! nothing else.
//!
//! An item that names no file is text, to be decoded as Base64. Of a file the format is told
//! first; content of no known format ends the item before anything is created. Then a
//! directory is allocated under the stem of the file's name. An archive is unpacked into it
//! and the item is done. A compressed stream is decoded into a file of the stem's name in it,
//! and that file is looked at again: if it is a tar archive it is moved to a random name
//! beside it, unpacked into the same directory and deleted, whether unpacking it went well or
//! not; anything else is kept as the result.

use vstd::prelude::*;
use crate::allocator::{allocated, candidate_at, collisions, lemma_allocation_settles};
use crate::allocator::{Allocation, AllocationStep, CreateOutcome};
use crate::candidate::spec_next_candidate;
use crate::error::{UnwrapError, UnwrapErrorView};
use crate::format::WrappedFormat;
use crate::path::{file_stem, join, spec_file_stem, spec_join};
use crate::token::{is_token, random_token};

verus! {

/// Where a failed action went wrong.
#[derive(Clone, Copy, Debug, PartialEq, Eq, Structural)]
pub enum Cause {
    /// The source could not be opened or read.
    Source,
    /// The destination could not be created or written.
    Destination,
    /// The data is malformed.
    Corrupt,
}

/// How the action that was asked for went.
#[derive(Clone, Debug, PartialEq, Eq)]
pub enum Event {
    /// `Probe`: the path names a file.
    Found,
    /// `Probe`: the path names nothing.
    Missing,
    /// `Classify`: the content is of this format.
    Format(WrappedFormat),
    /// `CreateDir`: something of that name exists already.
    Exists,
    /// The action was carried out.
    Done,
    /// The action failed.
    Failed { cause: Cause, reason: String },
}

/// An `Event` as plain values.
pub enum EventView {
    Found,
    Missing,
    Format(WrappedFormat),
    Exists,
    Done,
    Failed { cause: Cause, reason: Seq<char> },
}

impl View for Event {
    type V = EventView;

    open spec fn view(&self) -> EventView {
        match *self {
            Event::Found => EventView::Found,
            Event::Missing => EventView::Missing,
            Event::Format(format) => EventView::Format(format),
            Event::Exists => EventView::Exists,
            Event::Done => EventView::Done,
            Event::Failed { cause, reason } => EventView::Failed { cause, reason: reason@ },
        }
    }
}

/// What is to be reported of an action that was carried out as far as it could be: what was
/// planned or decoded is stored first, and only then is the failure reported. A store that
/// fails comes before a flaw in the data, since it ended the action; data that is flawed is
/// reported although what came out of it was stored.
pub open spec fn spec_report(unstored: Option<Seq<char>>, flaw: Option<Seq<char>>) -> EventView {
    match unstored {
        Some(reason) => EventView::Failed { cause: Cause::Destination, reason },
        None => match flaw {
            Some(reason) => EventView::Failed { cause: Cause::Corrupt, reason },
            None => EventView::Done,
        },
    }
}

/// The reason that the plan of an archive gives for its failure.
pub open spec fn spec_plan_flaw(failure: Option<UnwrapErrorView>) -> Option<Seq<char>> {
    match failure {
        Some(UnwrapErrorView::Decode { reason, .. }) => Some(reason),
        Some(error) => Some(error.describe()),
        None => None,
    }
}

impl Event {
    /// The event to report after a stream was decoded and what came out of it was written:
    /// `unstored` says why writing failed, if it did, and `flaw` is the flaw of the decoded
    /// stream, if it has one.
    pub fn after_decoding(unstored: Option<String>, flaw: Option<String>) -> (event: Event)
        ensures
            event@ == spec_report(
                match unstored {
                    Some(reason) => Some(reason@),
                    None => None,
                },
                match flaw {
                    Some(reason) => Some(reason@),
                    None => None,
                },
            ),
    {
        match unstored {
            Some(reason) => Event::Failed { cause: Cause::Destination, reason },
            None => match flaw {
                Some(reason) => Event::Failed { cause: Cause::Corrupt, reason },
                None => Event::Done,
            },
        }
    }

    /// The event to report after the operations of an archive's plan were carried out:
    /// `unstored` says why one of them failed, if one did, and `failure` is the failure of
    /// the plan, if it has one.
    pub fn after_extraction(unstored: Option<String>, failure: Option<UnwrapError>) -> (event: Event)
        ensures
            event@ == spec_report(
                match unstored {
                    Some(reason) => Some(reason@),
                    None => None,
                },
                spec_plan_flaw(
                    match failure {
                        Some(error) => Some(error@),
                        None => None,
                    },
                ),
            ),
    {
        let flaw = match failure {
            Some(UnwrapError::Decode { format, reason }) => Some(reason),
            Some(error) => Some(error.describe()),
            None => None,
        };
        Event::after_decoding(unstored, flaw)
    }
}

/// What the driver asks for.
#[derive(Clone, Debug, PartialEq, Eq)]
pub enum Action {
    /// See whether `path` names a file: `Found` or `Missing`.
    Probe { path: String },
    /// Tell the format of the content of `path`: `Format`.
    Classify { path: String },
    /// Create the directory `path`, which must not exist yet: `Done` or `Exists`.
    CreateDir { path: String },
    /// Unpack the archive `source`, which is of `format`, into the directory `dest`: `Done`.
    Unpack { format: WrappedFormat, source: String, dest: String },
    /// Decode the stream `source`, which is of `format`, into the file `output`: `Done`. What
    /// was written stays where it is if the decoder fails.
    Decode { format: WrappedFormat, source: String, output: String },
    /// Rename the file `from` to `to`: `Done`.
    Rename { from: String, to: String },
    /// Delete the file `path`: `Done`.
    Remove { path: String },
}

/// An `Action` as plain values.
pub enum ActionView {
    Probe { path: Seq<char> },
    Classify { path: Seq<char> },
    CreateDir { path: Seq<char> },
    Unpack { format: WrappedFormat, source: Seq<char>, dest: Seq<char> },
    Decode { format: WrappedFormat, source: Seq<char>, output: Seq<char> },
    Rename { from: Seq<char>, to: Seq<char> },
    Remove { path: Seq<char> },
}

impl View for Action {
    type V = ActionView;

    open spec fn view(&self) -> ActionView {
        match *self {
            Action::Probe { path } => ActionView::Probe { path: path@ },
            Action::Classify { path } => ActionView::Classify { path: path@ },
            Action::CreateDir { path } => ActionView::CreateDir { path: path@ },
            Action::Unpack { format, source, dest } => ActionView::Unpack {
                format,
                source: source@,
                dest: dest@,
            },
            Action::Decode { format, source, output } => ActionView::Decode {
                format,
                source: source@,
                output: output@,
            },
            Action::Rename { from, to } => ActionView::Rename { from: from@, to: to@ },
            Action::Remove { path } => ActionView::Remove { path: path@ },
        }
    }
}

/// How an item ended.
#[derive(Clone, Debug, PartialEq, Eq)]
pub enum Outcome {
    /// The item names no file. It is text to be decoded as Base64 and reported; no directory
    /// was asked for.
    Text { text: String },
    /// The archive, or the tar archive inside the compressed stream, is unpacked in `dest`.
    Unpacked { dest: String },
    /// The stream is decoded into the file `output` in `dest`, which is kept.
    Decoded { dest: String, output: String },
    /// The item failed.
    Failed(UnwrapError),
}

/// An `Outcome` as plain values.
pub enum OutcomeView {
    Text { text: Seq<char> },
    Unpacked { dest: Seq<char> },
    Decoded { dest: Seq<char>, output: Seq<char> },
    Failed(UnwrapErrorView),
}

impl View for Outcome {
    type V = OutcomeView;

    open spec fn view(&self) -> OutcomeView {
        match *self {
            Outcome::Text { text } => OutcomeView::Text { text: text@ },
            Outcome::Unpacked { dest } => OutcomeView::Unpacked { dest: dest@ },
            Outcome::Decoded { dest, output } => OutcomeView::Decoded {
                dest: dest@,
                output: output@,
            },
            Outcome::Failed(error) => OutcomeView::Failed(error@),
        }
    }
}

/// What the driver waits for.
#[derive(Clone, Debug, PartialEq, Eq)]
pub enum Phase {
    /// Whether the item names a file.
    Probing,
    /// The format of the item's content.
    Detecting,
    /// A directory of its own for what the item holds.
    Allocating { format: WrappedFormat, stem: String, allocation: Allocation },
    /// The archive being unpacked into `dest`.
    Unpacking { format: WrappedFormat, dest: String },
    /// The stream being decoded into the file named `stem` in `dest`.
    Decoding { format: WrappedFormat, stem: String, dest: String },
    /// The format of the decoded file.
    Rechecking { format: WrappedFormat, stem: String, dest: String },
    /// The decoded file, a tar archive, being renamed to the intermediate name.
    Renaming { format: WrappedFormat, dest: String },
    /// The intermediate tar archive being unpacked into `dest`.
    Unnesting { format: WrappedFormat, dest: String },
    /// The intermediate file being deleted; `nested` says why unpacking it failed, if it did.
    Cleaning { format: WrappedFormat, dest: String, nested: Option<String> },
}

/// A `Phase` as plain values.
pub enum PhaseView {
    Probing,
    Detecting,
    Allocating { format: WrappedFormat, stem: Seq<char>, candidate: Seq<char> },
    Unpacking { format: WrappedFormat, dest: Seq<char> },
    Decoding { format: WrappedFormat, stem: Seq<char>, dest: Seq<char> },
    Rechecking { format: WrappedFormat, stem: Seq<char>, dest: Seq<char> },
    Renaming { format: WrappedFormat, dest: Seq<char> },
    Unnesting { format: WrappedFormat, dest: Seq<char> },
    Cleaning { format: WrappedFormat, dest: Seq<char>, nested: Option<Seq<char>> },
}

impl View for Phase {
    type V = PhaseView;

    open spec fn view(&self) -> PhaseView {
        match *self {
            Phase::Probing => PhaseView::Probing,
            Phase::Detecting => PhaseView::Detecting,
            Phase::Allocating { format, stem, allocation } => PhaseView::Allocating {
                format,
                stem: stem@,
                candidate: allocation@,
            },
            Phase::Unpacking { format, dest } => PhaseView::Unpacking { format, dest: dest@ },
            Phase::Decoding { format, stem, dest } => PhaseView::Decoding {
                format,
                stem: stem@,
                dest: dest@,
            },
            Phase::Rechecking { format, stem, dest } => PhaseView::Rechecking {
                format,
                stem: stem@,
                dest: dest@,
            },
            Phase::Renaming { format, dest } => PhaseView::Renaming { format, dest: dest@ },
            Phase::Unnesting { format, dest } => PhaseView::Unnesting { format, dest: dest@ },
            Phase::Cleaning { format, dest, nested } => PhaseView::Cleaning {
                format,
                dest: dest@,
                nested: match nested {
                    Some(reason) => Some(reason@),
                    None => None,
                },
            },
        }
    }
}

/// The driver of one item.
#[derive(Clone, Debug, PartialEq, Eq)]
pub struct Driver {
    item: String,
    token: String,
    phase: Phase,
}

/// A `Driver` as plain values.
pub struct DriverView {
    /// The item as it was given: a path, or text.
    pub item: Seq<char>,
    /// The name that an intermediate file gets.
    pub token: Seq<char>,
    pub phase: PhaseView,
}

impl View for Driver {
    type V = DriverView;

    closed spec fn view(&self) -> DriverView {
        DriverView { item: self.item@, token: self.token@, phase: self.phase@ }
    }
}

/// What a step leads to.
#[derive(Clone, Debug, PartialEq, Eq)]
pub enum Step {
    /// Carry `action` out and hand what came of it to `driver`.
    Continue { driver: Driver, action: Action },
    /// The item is finished.
    Finish(Outcome),
}

/// A `Step` as plain values.
pub enum StepView {
    Continue { driver: DriverView, action: ActionView },
    Finish(OutcomeView),
}

impl View for Step {
    type V = StepView;

    open spec fn view(&self) -> StepView {
        match *self {
            Step::Continue { driver, action } => StepView::Continue {
                driver: driver@,
                action: action@,
            },
            Step::Finish(outcome) => StepView::Finish(outcome@),
        }
    }
}

/// `name` is the desired name `stem` or one of the candidates that follow it.
pub open spec fn is_candidate_of(stem: Seq<char>, name: Seq<char>) -> bool {
    exists|i: nat| name == #[trigger] candidate_at(stem, i)
}

impl DriverView {
    /// What holds of every driver that `Driver::begin` and `Driver::step` give: its token is a
    /// token; what it allocates for, unpacks or decodes is of a format that is allocated for,
    /// unpacked or decoded; and its destination is named after the item.
    pub open spec fn well_formed(self) -> bool {
        &&& is_token(self.token)
        &&& match self.phase {
            PhaseView::Probing => true,
            PhaseView::Detecting => true,
            PhaseView::Allocating { format, stem, candidate } => {
                &&& format.is_archive() || format.is_compressor()
                &&& spec_file_stem(self.item) == Some(stem)
                &&& is_candidate_of(stem, candidate)
            },
            PhaseView::Unpacking { format, dest } => {
                &&& format.is_archive()
                &&& spec_file_stem(self.item) matches Some(stem)
                &&& is_candidate_of(stem, dest)
            },
            PhaseView::Decoding { format, stem, dest } => {
                &&& format.is_compressor()
                &&& spec_file_stem(self.item) == Some(stem)
                &&& is_candidate_of(stem, dest)
            },
            PhaseView::Rechecking { format, stem, dest } => {
                &&& format.is_compressor()
                &&& spec_file_stem(self.item) == Some(stem)
                &&& is_candidate_of(stem, dest)
            },
            PhaseView::Renaming { format, dest } => format.is_compressor(),
            PhaseView::Unnesting { format, dest } => format.is_compressor(),
            PhaseView::Cleaning { format, dest, nested } => format.is_compressor(),
        }
    }
}

impl ActionView {
    /// The action can be carried out: an archive format is unpacked, a compressor is decoded.
    pub open spec fn fits(self) -> bool {
        match self {
            ActionView::Unpack { format, .. } => format.is_archive(),
            ActionView::Decode { format, .. } => format.is_compressor(),
            _ => true,
        }
    }
}

/// The reason that a failure gives; none for any other event.
pub open spec fn spec_reason(event: EventView) -> Seq<char> {
    match event {
        EventView::Failed { reason, .. } => reason,
        _ => Seq::empty(),
    }
}

/// The error for an adapter of `format` that did not report success: a source that cannot be
/// read is told apart from data that cannot be decoded or stored.
pub open spec fn spec_adapter_error(format: WrappedFormat, event: EventView) -> UnwrapErrorView {
    match event {
        EventView::Failed { cause: Cause::Source, reason } => UnwrapErrorView::SourceIo { reason },
        _ => UnwrapErrorView::Decode { format, reason: spec_reason(event) },
    }
}

/// The error for a failure after the outer layer of `format` was decoded.
pub open spec fn spec_nested_error(format: WrappedFormat, reason: Seq<char>) -> StepView {
    StepView::Finish(OutcomeView::Failed(UnwrapErrorView::NestedUnwrap { format, reason }))
}

/// The file that a stream is decoded into: named by the stem of the source, in `dest`.
pub open spec fn spec_output(dest: Seq<char>, stem: Seq<char>) -> Seq<char> {
    spec_join(dest, stem)
}

/// The name that a decoded tar archive is moved to before it is unpacked: the token, in
/// `dest`, beside the decoded file.
pub open spec fn spec_intermediate(dest: Seq<char>, token: Seq<char>) -> Seq<char> {
    spec_join(dest, token)
}

/// The driver's decision: what follows from `event` in the state `driver`.
pub open spec fn spec_step(driver: DriverView, event: EventView) -> StepView {
    match driver.phase {
        PhaseView::Probing => match event {
            EventView::Found => StepView::Continue {
                driver: DriverView { phase: PhaseView::Detecting, ..driver },
                action: ActionView::Classify { path: driver.item },
            },
            EventView::Missing => StepView::Finish(OutcomeView::Text { text: driver.item }),
            _ => StepView::Finish(
                OutcomeView::Failed(UnwrapErrorView::SourceIo { reason: spec_reason(event) }),
            ),
        },
        PhaseView::Detecting => match event {
            EventView::Format(format) => if format.is_archive() || format.is_compressor() {
                match spec_file_stem(driver.item) {
                    Some(stem) => StepView::Continue {
                        driver: DriverView {
                            phase: PhaseView::Allocating { format, stem, candidate: stem },
                            ..driver
                        },
                        action: ActionView::CreateDir { path: stem },
                    },
                    None => StepView::Finish(
                        OutcomeView::Failed(
                            UnwrapErrorView::DestinationAllocation {
                                reason: "the input has no file name"@,
                            },
                        ),
                    ),
                }
            } else {
                StepView::Finish(OutcomeView::Failed(UnwrapErrorView::Unsupported))
            },
            _ => StepView::Finish(
                OutcomeView::Failed(UnwrapErrorView::SourceIo { reason: spec_reason(event) }),
            ),
        },
        PhaseView::Allocating { format, stem, candidate } => match event {
            EventView::Done => if format.is_archive() {
                StepView::Continue {
                    driver: DriverView {
                        phase: PhaseView::Unpacking { format, dest: candidate },
                        ..driver
                    },
                    action: ActionView::Unpack { format, source: driver.item, dest: candidate },
                }
            } else {
                StepView::Continue {
                    driver: DriverView {
                        phase: PhaseView::Decoding { format, stem, dest: candidate },
                        ..driver
                    },
                    action: ActionView::Decode {
                        format,
                        source: driver.item,
                        output: spec_output(candidate, stem),
                    },
                }
            },
            EventView::Exists => StepView::Continue {
                driver: DriverView {
                    phase: PhaseView::Allocating {
                        format,
                        stem,
                        candidate: spec_next_candidate(candidate),
                    },
                    ..driver
                },
                action: ActionView::CreateDir { path: spec_next_candidate(candidate) },
            },
            _ => StepView::Finish(
                OutcomeView::Failed(
                    UnwrapErrorView::DestinationAllocation { reason: spec_reason(event) },
                ),
            ),
        },
        PhaseView::Unpacking { format, dest } => match event {
            EventView::Done => StepView::Finish(OutcomeView::Unpacked { dest }),
            _ => StepView::Finish(OutcomeView::Failed(spec_adapter_error(format, event))),
        },
        PhaseView::Decoding { format, stem, dest } => match event {
            EventView::Done => StepView::Continue {
                driver: DriverView { phase: PhaseView::Rechecking { format, stem, dest }, ..driver },
                action: ActionView::Classify { path: spec_output(dest, stem) },
            },
            _ => StepView::Finish(OutcomeView::Failed(spec_adapter_error(format, event))),
        },
        PhaseView::Rechecking { format, stem, dest } => match event {
            EventView::Format(WrappedFormat::Tar) => StepView::Continue {
                driver: DriverView { phase: PhaseView::Renaming { format, dest }, ..driver },
                action: ActionView::Rename {
                    from: spec_output(dest, stem),
                    to: spec_intermediate(dest, driver.token),
                },
            },
            EventView::Format(_) => StepView::Finish(
                OutcomeView::Decoded { dest, output: spec_output(dest, stem) },
            ),
            _ => spec_nested_error(format, spec_reason(event)),
        },
        PhaseView::Renaming { format, dest } => match event {
            EventView::Done => StepView::Continue {
                driver: DriverView { phase: PhaseView::Unnesting { format, dest }, ..driver },
                action: ActionView::Unpack {
                    format: WrappedFormat::Tar,
                    source: spec_intermediate(dest, driver.token),
                    dest,
                },
            },
            _ => spec_nested_error(format, spec_reason(event)),
        },
        PhaseView::Unnesting { format, dest } => StepView::Continue {
            driver: DriverView {
                phase: PhaseView::Cleaning {
                    format,
                    dest,
                    nested: match event {
                        EventView::Done => None,
                        _ => Some(spec_reason(event)),
                    },
                },
                ..driver
            },
            action: ActionView::Remove { path: spec_intermediate(dest, driver.token) },
        },
        PhaseView::Cleaning { format, dest, nested } => match nested {
            Some(reason) => spec_nested_error(format, reason),
            None => match event {
                EventView::Done => StepView::Finish(OutcomeView::Unpacked { dest }),
                _ => spec_nested_error(format, spec_reason(event)),
            },
        },
    }
}

/// The reason that a failure gives; none for any other event.
fn reason_of(event: Event) -> (reason: String)
    ensures
        reason@ == spec_reason(event@),
{
    match event {
        Event::Failed { cause, reason } => reason,
        _ => String::new(),
    }
}

/// The outcome for an adapter of `format` that did not report success.
fn adapter_failure(format: WrappedFormat, event: Event) -> (step: Step)
    ensures
        step@ == StepView::Finish(OutcomeView::Failed(spec_adapter_error(format, event@))),
{
    match event {
        Event::Failed { cause: Cause::Source, reason } => Step::Finish(
            Outcome::Failed(UnwrapError::SourceIo { reason }),
        ),
        other => Step::Finish(
            Outcome::Failed(UnwrapError::Decode { format, reason: reason_of(other) }),
        ),
    }
}

/// The outcome for a failure after the outer layer of `format` was decoded.
fn nested_failure(format: WrappedFormat, reason: String) -> (step: Step)
    ensures
        step@ == spec_nested_error(format, reason@),
{
    Step::Finish(Outcome::Failed(UnwrapError::NestedUnwrap { format, reason }))
}

impl Driver {
    /// A driver for `item`, with a fresh random token for the intermediate file it may need,
    /// and the first thing it asks for: whether `item` names a file.
    pub fn begin(item: &str) -> (start: (Driver, Action))
        ensures
            start.0@.item == item@,
            start.0@.phase == PhaseView::Probing,
            start.0@.well_formed(),
            start.1@ == (ActionView::Probe { path: item@ }),
    {
        let driver = Driver { item: item.to_owned(), token: random_token(), phase: Phase::Probing };
        (driver, Action::Probe { path: item.to_owned() })
    }

    /// Takes what came of the last action and decides what follows: the next action, or the
    /// item's outcome.
    pub fn step(self, event: Event) -> (step: Step)
        ensures
            step@ == spec_step(self@, event@),
            self@.well_formed() ==> (step@ matches StepView::Continue { driver, action }
                ==> driver.well_formed() && action.fits()),
    {
        proof {
            if self@.well_formed() {
                lemma_step_keeps_well_formed(self@, event@);
            }
        }
        let Driver { item, token, phase } = self;
        match phase {
            Phase::Probing => match event {
                Event::Found => {
                    let path = item.clone();
                    Step::Continue {
                        driver: Driver { item, token, phase: Phase::Detecting },
                        action: Action::Classify { path },
                    }
                },
                Event::Missing => Step::Finish(Outcome::Text { text: item }),
                other => Step::Finish(
                    Outcome::Failed(UnwrapError::SourceIo { reason: reason_of(other) }),
                ),
            },
            Phase::Detecting => match event {
                Event::Format(format) => {
                    if format.is_archive() || format.is_compressor() {
                        match file_stem(item.as_str()) {
                            Some(stem) => {
                                let allocation = Allocation::begin(stem.as_str());
                                let path = stem.clone();
                                Step::Continue {
                                    driver: Driver {
                                        item,
                                        token,
                                        phase: Phase::Allocating { format, stem, allocation },
                                    },
                                    action: Action::CreateDir { path },
                                }
                            },
                            None => Step::Finish(
                                Outcome::Failed(
                                    UnwrapError::DestinationAllocation {
                                        reason: "the input has no file name".to_owned(),
                                    },
                                ),
                            ),
                        }
                    } else {
                        Step::Finish(Outcome::Failed(UnwrapError::Unsupported))
                    }
                },
                other => Step::Finish(
                    Outcome::Failed(UnwrapError::SourceIo { reason: reason_of(other) }),
                ),
            },
            Phase::Allocating { format, stem, allocation } => {
                let outcome = match event {
                    Event::Done => CreateOutcome::Created,
                    Event::Exists => CreateOutcome::AlreadyExists,
                    other => CreateOutcome::Failed(reason_of(other)),
                };
                match allocation.resolve(outcome) {
                    AllocationStep::Done(dest) => {
                        let source = item.clone();
                        if format.is_archive() {
                            let into = dest.clone();
                            Step::Continue {
                                driver: Driver {
                                    item,
                                    token,
                                    phase: Phase::Unpacking { format, dest },
                                },
                                action: Action::Unpack { format, source, dest: into },
                            }
                        } else {
                            let output = join(dest.as_str(), stem.as_str());
                            Step::Continue {
                                driver: Driver {
                                    item,
                                    token,
                                    phase: Phase::Decoding { format, stem, dest },
                                },
                                action: Action::Decode { format, source, output },
                            }
                        }
                    },
                    AllocationStep::Retry(next) => {
                        let path = next.candidate().to_owned();
                        Step::Continue {
                            driver: Driver {
                                item,
                                token,
                                phase: Phase::Allocating { format, stem, allocation: next },
                            },
                            action: Action::CreateDir { path },
                        }
                    },
                    AllocationStep::Failed(error) => Step::Finish(Outcome::Failed(error)),
                }
            },
            Phase::Unpacking { format, dest } => match event {
                Event::Done => Step::Finish(Outcome::Unpacked { dest }),
                other => adapter_failure(format, other),
            },
            Phase::Decoding { format, stem, dest } => match event {
                Event::Done => {
                    let path = join(dest.as_str(), stem.as_str());
                    Step::Continue {
                        driver: Driver {
                            item,
                            token,
                            phase: Phase::Rechecking { format, stem, dest },
                        },
                        action: Action::Classify { path },
                    }
                },
                other => adapter_failure(format, other),
            },
            Phase::Rechecking { format, stem, dest } => match event {
                Event::Format(WrappedFormat::Tar) => {
                    let from = join(dest.as_str(), stem.as_str());
                    let to = join(dest.as_str(), token.as_str());
                    Step::Continue {
                        driver: Driver { item, token, phase: Phase::Renaming { format, dest } },
                        action: Action::Rename { from, to },
                    }
                },
                Event::Format(_) => {
                    let output = join(dest.as_str(), stem.as_str());
                    Step::Finish(Outcome::Decoded { dest, output })
                },
                other => nested_failure(format, reason_of(other)),
            },
            Phase::Renaming { format, dest } => match event {
                Event::Done => {
                    let source = join(dest.as_str(), token.as_str());
                    let into = dest.clone();
                    Step::Continue {
                        driver: Driver { item, token, phase: Phase::Unnesting { format, dest } },
                        action: Action::Unpack { format: WrappedFormat::Tar, source, dest: into },
                    }
                },
                other => nested_failure(format, reason_of(other)),
            },
            Phase::Unnesting { format, dest } => {
                let path = join(dest.as_str(), token.as_str());
                let nested = match event {
                    Event::Done => None,
                    other => Some(reason_of(other)),
                };
                Step::Continue {
                    driver: Driver { item, token, phase: Phase::Cleaning { format, dest, nested } },
                    action: Action::Remove { path },
                }
            },
            Phase::Cleaning { format, dest, nested } => match nested {
                Some(reason) => nested_failure(format, reason),
                None => match event {
                    Event::Done => Step::Finish(Outcome::Unpacked { dest }),
                    other => nested_failure(format, reason_of(other)),
                },
            },
        }
    }
}

/// A well-formed driver stays well-formed, and every action it asks for can be carried out.
pub proof fn lemma_step_keeps_well_formed(driver: DriverView, event: EventView)
    requires
        driver.well_formed(),
    ensures
        match spec_step(driver, event) {
            StepView::Continue { driver: next, action } => next.well_formed() && action.fits(),
            StepView::Finish(_) => true,
        },
{
    match driver.phase {
        PhaseView::Detecting => {
            if spec_file_stem(driver.item) is Some {
                let stem = spec_file_stem(driver.item)->Some_0;
                assert(stem == candidate_at(stem, 0));
            }
        },
        PhaseView::Allocating { format, stem, candidate } => {
            let i = choose|i: nat| candidate == #[trigger] candidate_at(stem, i);
            assert(spec_next_candidate(candidate) == candidate_at(stem, i + 1));
        },
        _ => {},
    }
}

/// How many actions a driver in this phase can still ask for, collisions of directory names
/// not counted.
pub open spec fn actions_left(phase: PhaseView) -> nat {
    match phase {
        PhaseView::Probing => 8,
        PhaseView::Detecting => 7,
        PhaseView::Allocating { .. } => 6,
        PhaseView::Decoding { .. } => 5,
        PhaseView::Rechecking { .. } => 4,
        PhaseView::Renaming { .. } => 3,
        PhaseView::Unnesting { .. } => 2,
        PhaseView::Cleaning { .. } => 1,
        PhaseView::Unpacking { .. } => 1,
    }
}

/// Every step brings the item nearer to its end, but for a directory name that is taken, which
/// leads to the next candidate. The item and its token stay what they are.
pub proof fn lemma_step_advances(driver: DriverView, event: EventView)
    ensures
        match spec_step(driver, event) {
            StepView::Continue { driver: next, .. } => {
                &&& next.item == driver.item
                &&& next.token == driver.token
                &&& actions_left(next.phase) < actions_left(driver.phase) || (driver.phase is Allocating
                    && event is Exists && next.phase is Allocating)
            },
            StepView::Finish(_) => true,
        },
{
}

/// An item that names no file ends at once as text to decode, and content of no known format
/// ends at once as unsupported.
pub proof fn lemma_ends_without_directory(driver: DriverView, format: WrappedFormat)
    ensures
        driver.phase is Probing ==> spec_step(driver, EventView::Missing) == StepView::Finish(
            OutcomeView::Text { text: driver.item },
        ),
        driver.phase is Detecting && !format.is_archive() && !format.is_compressor() ==> spec_step(
            driver,
            EventView::Format(format),
        ) == StepView::Finish(OutcomeView::Failed(UnwrapErrorView::Unsupported)),
{
}

/// A directory is asked for in two situations only: the content has just been told to be an
/// archive or a compressed stream, or the directory asked for before exists already.
pub proof fn lemma_directory_needs_format(driver: DriverView, event: EventView)
    requires
        spec_step(driver, event) matches StepView::Continue { action, .. } && action is CreateDir,
    ensures
        ({
            ||| {
                &&& driver.phase is Detecting
                &&& event matches EventView::Format(format)
                &&& format.is_archive() || format.is_compressor()
            }
            ||| driver.phase is Allocating && event is Exists
        }),
{
}

/// The first directory asked for is named by the stem of the item, and after each collision
/// the next candidate of that name is asked for.
pub proof fn lemma_directory_names(driver: DriverView, format: WrappedFormat)
    ensures
        driver.phase is Detecting ==> match spec_step(driver, EventView::Format(format)) {
            StepView::Continue { action, .. } => action == (ActionView::CreateDir {
                path: spec_file_stem(driver.item)->Some_0,
            }),
            StepView::Finish(_) => true,
        },
        driver.phase matches PhaseView::Allocating { candidate, .. } ==> spec_step(
            driver,
            EventView::Exists,
        ) matches StepView::Continue { action, .. } && action == (ActionView::CreateDir {
            path: spec_next_candidate(candidate),
        }),
{
}

/// An archive is unpacked straight into the destination and the item is done; a compressed
/// stream is decoded into the file named by the stem of the item, and that file is then looked
/// at again.
pub proof fn lemma_dispatch(driver: DriverView)
    requires
        driver.phase is Allocating,
    ensures
        ({
            let format = driver.phase->Allocating_format;
            let stem = driver.phase->Allocating_stem;
            let dest = driver.phase->Allocating_candidate;
            match spec_step(driver, EventView::Done) {
                StepView::Continue { driver: next, action } => if format.is_archive() {
                    &&& action == (ActionView::Unpack { format, source: driver.item, dest })
                    &&& spec_step(next, EventView::Done) == StepView::Finish(
                        OutcomeView::Unpacked { dest },
                    )
                } else {
                    &&& action == (ActionView::Decode {
                        format,
                        source: driver.item,
                        output: spec_join(dest, stem),
                    })
                    &&& spec_step(next, EventView::Done) matches StepView::Continue {
                        action: again,
                        ..
                    }
                    &&& again == (ActionView::Classify { path: spec_join(dest, stem) })
                },
                StepView::Finish(_) => false,
            }
        }),
{
}

/// A decoded file that is no tar archive is kept as the result. One that is a tar archive is
/// moved to the token's name beside it; once that is done the archive is unpacked into the same
/// destination, and whatever comes of the unpacking the intermediate file is deleted before the
/// item ends. The item then succeeds only if both the unpacking and the deletion did, and fails
/// as a nested unwrap otherwise.
pub proof fn lemma_recheck(driver: DriverView, found: WrappedFormat, unpacked: EventView, removed: EventView)
    requires
        driver.phase is Rechecking,
    ensures
        ({
            let format = driver.phase->Rechecking_format;
            let stem = driver.phase->Rechecking_stem;
            let dest = driver.phase->Rechecking_dest;
            let output = spec_join(dest, stem);
            let intermediate = spec_join(dest, driver.token);
            if found != WrappedFormat::Tar {
                spec_step(driver, EventView::Format(found)) == StepView::Finish(
                    OutcomeView::Decoded { dest, output },
                )
            } else {
                &&& spec_step(driver, EventView::Format(found)) matches StepView::Continue {
                    driver: renaming,
                    action: rename,
                }
                &&& rename == (ActionView::Rename { from: output, to: intermediate })
                &&& spec_step(renaming, EventView::Done) matches StepView::Continue {
                    driver: unnesting,
                    action: unpack,
                }
                &&& unpack == (ActionView::Unpack {
                    format: WrappedFormat::Tar,
                    source: intermediate,
                    dest,
                })
                &&& spec_step(unnesting, unpacked) matches StepView::Continue {
                    driver: cleaning,
                    action: remove,
                }
                &&& remove == (ActionView::Remove { path: intermediate })
                &&& spec_step(cleaning, removed) matches StepView::Finish(outcome)
                &&& if unpacked is Done && removed is Done {
                    outcome == (OutcomeView::Unpacked { dest })
                } else {
                    outcome matches OutcomeView::Failed(error) && error is NestedUnwrap
                        && error->NestedUnwrap_format == format
                }
            }
        }),
{
}

/// The driver after `n` directory names in a row were found taken.
pub open spec fn after_collisions(driver: DriverView, n: nat) -> DriverView
    decreases n,
{
    if n == 0 {
        driver
    } else {
        match spec_step(after_collisions(driver, (n - 1) as nat), EventView::Exists) {
            StepView::Continue { driver: next, .. } => next,
            StepView::Finish(_) => driver,
        }
    }
}

/// A driver that looks for a directory tries the candidates of the allocation one after the
/// other.
pub proof fn lemma_collisions(driver: DriverView, n: nat)
    requires
        driver.phase is Allocating,
    ensures
        after_collisions(driver, n) == (DriverView {
            phase: PhaseView::Allocating {
                format: driver.phase->Allocating_format,
                stem: driver.phase->Allocating_stem,
                candidate: candidate_at(driver.phase->Allocating_candidate, n),
            },
            ..driver
        }),
    decreases n,
{
    if n > 0 {
        lemma_collisions(driver, (n - 1) as nat);
    }
}

/// While the names in `taken` are in use and no others, the driver collides with exactly the
/// candidates that are taken, and what it then unpacks or decodes into is the directory that
/// the allocation creates.
pub proof fn lemma_destination_is_allocated(driver: DriverView, taken: Set<Seq<char>>)
    requires
        driver.phase is Allocating,
        taken.finite(),
    ensures
        ({
            let format = driver.phase->Allocating_format;
            let stem = driver.phase->Allocating_stem;
            let desired = driver.phase->Allocating_candidate;
            let n = collisions(taken, desired);
            let dest = allocated(taken, desired);
            let settled = after_collisions(driver, n);
            &&& forall|j: nat|
                j < n ==> taken.contains(
                    #[trigger] after_collisions(driver, j).phase->Allocating_candidate,
                )
            &&& settled.phase->Allocating_candidate == dest
            &&& !taken.contains(dest)
            &&& spec_step(settled, EventView::Done) matches StepView::Continue { action, .. }
            &&& if format.is_archive() {
                action == (ActionView::Unpack { format, source: driver.item, dest })
            } else {
                action == (ActionView::Decode {
                    format,
                    source: driver.item,
                    output: spec_join(dest, stem),
                })
            }
        }),
{
    let desired = driver.phase->Allocating_candidate;
    let n = collisions(taken, desired);
    lemma_allocation_settles(taken, desired);
    lemma_collisions(driver, n);
    assert forall|j: nat| j < n implies taken.contains(
        #[trigger] after_collisions(driver, j).phase->Allocating_candidate,
    ) by {
        lemma_collisions(driver, j);
        assert(taken.contains(candidate_at(desired, j)));
    }
}

} // verus!
