//! The conversion of one file, step by step.
//!
//! A [`Pipeline`] decides and the caller acts: every step hands the caller an
//! [`Action`] to perform on the file system, and the caller answers with the
//! [`Event`] that tells how it went. The steps follow each other in a fixed
//! order: find the capture time, find a free name, convert, write, delete
//! the source. The write is asked for a file that does not exist yet; where
//! another conversion took the name between the probe and the write, the
//! search for a name goes on with the next number.

use crate::error::ConvertError;
use crate::exif::{exif_warnings, texts};
use crate::extension::ImageKind;
use crate::naming::{
    allocate_from, candidate_text, stamp_name, stamp_text, Allocation, NameAllocator, MAX_SUFFIX,
};
use crate::timestamp::{
    chosen_file_time, exif_reading, get_exif_datetime, get_file_datetime, CaptureTimestamp, FileTime,
};
use crate::transcode::{avif_header, conversion_verdict, convert_to_avif};
use vstd::prelude::*;

verus! {

/// An image file to convert.
#[derive(Debug)]
pub struct ImageFile {
    /// Where the file is.
    pub path: String,
    /// The directory that holds it, where the path names one.
    pub directory: Option<String>,
    /// The kind of image that its extension stands for.
    pub kind: ImageKind,
}

/// How the conversion of one file ended.
#[derive(Debug)]
pub enum ConversionOutcome {
    /// The image was written under `name` in the directory of the source,
    /// and the source was deleted.
    Converted { name: String },
    /// The conversion stopped with `error`.
    Failed { error: ConvertError },
}

/// The view of a [`ConversionOutcome`]: its name as a sequence of characters.
pub enum OutcomeView {
    Converted { name: Seq<char> },
    Failed { error: ConvertError },
}

impl View for ConversionOutcome {
    type V = OutcomeView;

    open spec fn view(&self) -> OutcomeView {
        match self {
            ConversionOutcome::Converted { name } => OutcomeView::Converted { name: name@ },
            ConversionOutcome::Failed { error } => OutcomeView::Failed { error: *error },
        }
    }
}

/// What the caller is asked to do next.
#[derive(Debug)]
pub enum Action {
    /// Read the bytes of the source.
    ReadSource,
    /// Look up the creation and modification times of the source.
    ReadFileTimes,
    /// Find out whether the directory of the source holds `name`.
    Probe { name: String },
    /// Create the file `name` in the directory of the source and write
    /// `data` to it; a file of that name that exists already is left as it
    /// is.
    Write { name: String, data: Vec<u8> },
    /// Delete the source.
    DeleteSource,
}

/// The view of an [`Action`]: names and data as sequences.
pub enum ActionView {
    ReadSource,
    ReadFileTimes,
    Probe { name: Seq<char> },
    Write { name: Seq<char>, data: Seq<u8> },
    DeleteSource,
}

impl View for Action {
    type V = ActionView;

    open spec fn view(&self) -> ActionView {
        match self {
            Action::ReadSource => ActionView::ReadSource,
            Action::ReadFileTimes => ActionView::ReadFileTimes,
            Action::Probe { name } => ActionView::Probe { name: name@ },
            Action::Write { name, data } => ActionView::Write { name: name@, data: data@ },
            Action::DeleteSource => ActionView::DeleteSource,
        }
    }
}

/// How an action went, as the caller reports it.
#[derive(Debug)]
pub enum Event {
    /// The source was read and holds these bytes.
    SourceRead(Vec<u8>),
    /// The file system records these times for the source.
    FileTimes { created: Option<FileTime>, modified: Option<FileTime> },
    /// The name that was probed exists, or does not.
    Probed { exists: bool },
    /// The file was written in full.
    Written,
    /// The file was not written: a file of that name existed already.
    NameTaken,
    /// The source was deleted.
    Deleted,
    /// The action could not be carried out.
    Failed,
}

/// What an event comes to once the bytes and times in it have been looked
/// into.
#[derive(Debug)]
pub enum Input {
    /// The capture time was found.
    Timed(CaptureTimestamp),
    /// The name that was probed exists, or does not.
    Probed { exists: bool },
    /// The source was converted to these bytes.
    Encoded(Vec<u8>),
    /// The source was decoded, and the encoder made nothing of it.
    EncodeFailed,
    /// The file was written in full.
    Written,
    /// The file was not written: a file of that name existed already.
    NameTaken,
    /// The source was deleted.
    Deleted,
    /// What was asked for could not be had.
    Failed,
}

/// The view of an [`Input`]: data as a sequence.
pub enum InputView {
    Timed(CaptureTimestamp),
    Probed { exists: bool },
    Encoded(Seq<u8>),
    EncodeFailed,
    Written,
    NameTaken,
    Deleted,
    Failed,
}

impl View for Input {
    type V = InputView;

    open spec fn view(&self) -> InputView {
        match self {
            Input::Timed(time) => InputView::Timed(*time),
            Input::Probed { exists } => InputView::Probed { exists: *exists },
            Input::Encoded(data) => InputView::Encoded(data@),
            Input::EncodeFailed => InputView::EncodeFailed,
            Input::Written => InputView::Written,
            Input::NameTaken => InputView::NameTaken,
            Input::Deleted => InputView::Deleted,
            Input::Failed => InputView::Failed,
        }
    }
}

/// Where a conversion stands: what it has asked for and waits to hear of.
pub enum PhaseView {
    /// The source, for the capture time in its metadata.
    Metadata,
    /// The times of the file system.
    FileTimes,
    /// Whether candidate `counter` of `stem` exists.
    Naming { stem: Seq<char>, counter: nat },
    /// The source, to convert it; the result will get candidate `counter`
    /// of `stem` as its name.
    Pixels { stem: Seq<char>, counter: nat },
    /// That the file with candidate `counter` of `stem` as its name was
    /// written.
    Writing { stem: Seq<char>, counter: nat },
    /// That the source was deleted, after the file `name` was written.
    Deleting { name: Seq<char> },
}

enum Phase {
    Metadata,
    FileTimes,
    Naming(NameAllocator),
    Pixels(NameAllocator),
    Writing(NameAllocator),
    Deleting { name: String },
}

/// The conversion of one file, between two steps.
pub struct Pipeline {
    kind: ImageKind,
    phase: Phase,
}

/// The result of a step: the next action and the pipeline that waits for
/// its event, or the outcome.
pub enum Step {
    Next(Pipeline, Action),
    Done(ConversionOutcome),
}

/// The view of a [`Step`].
pub enum StepView {
    Next(PhaseView, ActionView),
    Done(OutcomeView),
}

/// The step that opens the search for a name after the capture time was
/// found: the first candidate is probed.
pub open spec fn begin_naming(time: CaptureTimestamp) -> StepView {
    let stem = stamp_text(time.local);
    StepView::Next(
        PhaseView::Naming { stem, counter: 0 },
        ActionView::Probe { name: candidate_text(stem, 0) },
    )
}

/// The step after a candidate was found taken: the next candidate is
/// probed, unless the one that was taken is number 10000.
pub open spec fn next_candidate(stem: Seq<char>, counter: nat) -> StepView {
    if counter < MAX_SUFFIX {
        StepView::Next(
            PhaseView::Naming { stem, counter: counter + 1 },
            ActionView::Probe { name: candidate_text(stem, counter + 1) },
        )
    } else {
        StepView::Done(OutcomeView::Failed { error: ConvertError::NamingExhausted })
    }
}

/// The step that a conversion takes on an input.
///
/// An input that does not answer what was asked counts as a failure of what
/// was asked; a probe without an answer counts as a name that is taken. A
/// write that found its name taken sends the search on to the next
/// candidate.
pub open spec fn advance_spec(phase: PhaseView, input: InputView) -> StepView {
    match phase {
        PhaseView::Metadata => match input {
            InputView::Timed(time) => begin_naming(time),
            _ => StepView::Next(PhaseView::FileTimes, ActionView::ReadFileTimes),
        },
        PhaseView::FileTimes => match input {
            InputView::Timed(time) => begin_naming(time),
            _ => StepView::Done(OutcomeView::Failed { error: ConvertError::TimestampUnavailable }),
        },
        PhaseView::Naming { stem, counter } => match input {
            InputView::Probed { exists: false } => StepView::Next(
                PhaseView::Pixels { stem, counter },
                ActionView::ReadSource,
            ),
            _ => next_candidate(stem, counter),
        },
        PhaseView::Pixels { stem, counter } => match input {
            InputView::Encoded(data) => StepView::Next(
                PhaseView::Writing { stem, counter },
                ActionView::Write { name: candidate_text(stem, counter), data },
            ),
            InputView::EncodeFailed => StepView::Done(
                OutcomeView::Failed { error: ConvertError::EncodeFailure },
            ),
            _ => StepView::Done(OutcomeView::Failed { error: ConvertError::DecodeFailure }),
        },
        PhaseView::Writing { stem, counter } => match input {
            InputView::Written => StepView::Next(
                PhaseView::Deleting { name: candidate_text(stem, counter) },
                ActionView::DeleteSource,
            ),
            InputView::NameTaken => next_candidate(stem, counter),
            _ => StepView::Done(OutcomeView::Failed { error: ConvertError::WriteFailure }),
        },
        PhaseView::Deleting { name } => match input {
            InputView::Deleted => StepView::Done(OutcomeView::Converted { name }),
            _ => StepView::Done(OutcomeView::Failed { error: ConvertError::DeleteFailure }),
        },
    }
}

impl View for Step {
    type V = StepView;

    open spec fn view(&self) -> StepView {
        match self {
            Step::Next(pipeline, action) => StepView::Next(pipeline@, action@),
            Step::Done(outcome) => StepView::Done(outcome@),
        }
    }
}

impl View for Pipeline {
    type V = PhaseView;

    closed spec fn view(&self) -> PhaseView {
        match self.phase {
            Phase::Metadata => PhaseView::Metadata,
            Phase::FileTimes => PhaseView::FileTimes,
            Phase::Naming(allocator) => PhaseView::Naming {
                stem: allocator.stem@,
                counter: allocator.counter as nat,
            },
            Phase::Pixels(allocator) => PhaseView::Pixels {
                stem: allocator.stem@,
                counter: allocator.counter as nat,
            },
            Phase::Writing(allocator) => PhaseView::Writing {
                stem: allocator.stem@,
                counter: allocator.counter as nat,
            },
            Phase::Deleting { name } => PhaseView::Deleting { name: name@ },
        }
    }
}

/// The first step for a file: the source is read for its metadata, unless
/// its path names no directory.
pub open spec fn start_spec(has_directory: bool) -> StepView {
    if has_directory {
        StepView::Next(PhaseView::Metadata, ActionView::ReadSource)
    } else {
        StepView::Done(OutcomeView::Failed { error: ConvertError::MissingDirectory })
    }
}

/// Whether `input` is what `event` can come to in a conversion that stands
/// at `phase`, for a source of the given kind.
///
/// The bytes of the source decide the capture time in them and whether they
/// decode. The time zone of the machine decides whether a capture time in
/// the metadata is usable and which local time a file time has; the encoder
/// decides whether it encodes, and what follows the header of its file.
/// Where those decide, more than one input is allowed.
pub open spec fn digest_allows(
    phase: PhaseView,
    kind: ImageKind,
    event: Event,
    input: InputView,
) -> bool {
    match (phase, event) {
        (PhaseView::Metadata, Event::SourceRead(bytes)) => match input {
            InputView::Timed(time) => time.wf() && exif_reading(bytes@) == Some(time.local),
            InputView::Failed => true,
            _ => false,
        },
        (PhaseView::FileTimes, Event::FileTimes { created, modified }) => match chosen_file_time(
            created,
            modified,
        ) {
            Some(t) if t.in_range() => input matches InputView::Timed(time) && time.wf()
                && time.instant() == t.secs && time.local.nano == t.nanos,
            _ => input is Failed,
        },
        (PhaseView::Pixels { .. }, Event::SourceRead(bytes)) => match conversion_verdict(
            bytes@,
            kind,
        ) {
            Some(ConvertError::EncodeFailure) => input is EncodeFailed,
            Some(_) => input is Failed,
            None => match input {
                InputView::Encoded(data) => avif_header(data),
                InputView::EncodeFailed => true,
                _ => false,
            },
        },
        (_, Event::Probed { exists }) => input == (InputView::Probed { exists }),
        (_, Event::Written) => input is Written,
        (_, Event::NameTaken) => input is NameTaken,
        (_, Event::Deleted) => input is Deleted,
        _ => input is Failed,
    }
}

/// The warnings that come with looking into an event: those of the reader
/// of the metadata, where the source was read for its metadata.
pub open spec fn warnings_of(phase: PhaseView, event: Event) -> Seq<Seq<char>> {
    match (phase, event) {
        (PhaseView::Metadata, Event::SourceRead(bytes)) => exif_warnings(bytes@),
        _ => Seq::empty(),
    }
}

/// What an event comes to, and the warnings given on the way, for the
/// caller to show.
#[derive(Debug)]
pub struct Digest {
    pub input: Input,
    pub warnings: Vec<String>,
}

impl Pipeline {
    /// The kind of image that the source is read as.
    pub closed spec fn kind(&self) -> ImageKind {
        self.kind
    }

    /// Begins the conversion of a file.
    pub fn start(file: &ImageFile) -> (r: Step)
        ensures
            r@ == start_spec(file.directory is Some),
            r matches Step::Next(pipeline, _) ==> pipeline.kind() == file.kind,
    {
        if file.directory.is_some() {
            Step::Next(Pipeline { kind: file.kind, phase: Phase::Metadata }, Action::ReadSource)
        } else {
            Step::Done(ConversionOutcome::Failed { error: ConvertError::MissingDirectory })
        }
    }

    /// Looks into an event: reads the capture time out of the bytes or the
    /// file times that it brings, or converts the bytes, as the phase asks.
    pub fn digest(&self, event: Event) -> (r: Digest)
        ensures
            digest_allows(self@, self.kind(), event, r.input@),
            r.input@ matches InputView::Timed(time) ==> time.wf(),
            texts(r.warnings@) == warnings_of(self@, event),
    {
        let mut warnings: Vec<String> = Vec::new();
        assert(texts(warnings@) =~= Seq::<Seq<char>>::empty());
        let input = match event {
            Event::SourceRead(bytes) => match &self.phase {
                Phase::Metadata => {
                    let reading = get_exif_datetime(bytes.as_slice());
                    warnings = reading.warnings;
                    match reading.time {
                        Ok(time) => Input::Timed(time),
                        Err(_) => Input::Failed,
                    }
                },
                Phase::Pixels(_) => match convert_to_avif(bytes.as_slice(), self.kind) {
                    Ok(data) => Input::Encoded(data),
                    Err(ConvertError::EncodeFailure) => Input::EncodeFailed,
                    Err(_) => Input::Failed,
                },
                _ => Input::Failed,
            },
            Event::FileTimes { created, modified } => match &self.phase {
                Phase::FileTimes => match get_file_datetime(created, modified) {
                    Ok(time) => Input::Timed(time),
                    Err(_) => Input::Failed,
                },
                _ => Input::Failed,
            },
            Event::Probed { exists } => Input::Probed { exists },
            Event::Written => Input::Written,
            Event::NameTaken => Input::NameTaken,
            Event::Deleted => Input::Deleted,
            Event::Failed => Input::Failed,
        };
        Digest { input, warnings }
    }

    /// Opens the search for a name for an image taken at `time`.
    fn name_after(kind: ImageKind, time: &CaptureTimestamp) -> (r: Step)
        requires
            time.wf(),
        ensures
            r@ == begin_naming(*time),
            r matches Step::Next(pipeline, _) ==> pipeline.kind() == kind,
    {
        let allocator = NameAllocator::new(stamp_name(time));
        let name = allocator.candidate();
        Step::Next(Pipeline { kind, phase: Phase::Naming(allocator) }, Action::Probe { name })
    }

    /// Goes on to the next candidate after one was found taken.
    fn retry(kind: ImageKind, allocator: NameAllocator) -> (r: Step)
        ensures
            r@ == next_candidate(allocator.stem@, allocator.counter as nat),
            r matches Step::Next(pipeline, _) ==> pipeline.kind() == kind,
    {
        match allocator.answer(true) {
            Allocation::Retry(next) => {
                let name = next.candidate();
                Step::Next(Pipeline { kind, phase: Phase::Naming(next) }, Action::Probe { name })
            },
            _ => Step::Done(ConversionOutcome::Failed { error: ConvertError::NamingExhausted }),
        }
    }

    /// Takes one step on an input.
    pub fn advance(self, input: Input) -> (r: Step)
        requires
            input@ matches InputView::Timed(time) ==> time.wf(),
        ensures
            r@ == advance_spec(self@, input@),
            r matches Step::Next(pipeline, _) ==> pipeline.kind() == self.kind(),
    {
        let kind = self.kind;
        match self.phase {
            Phase::Metadata => match input {
                Input::Timed(time) => Self::name_after(kind, &time),
                _ => Step::Next(Pipeline { kind, phase: Phase::FileTimes }, Action::ReadFileTimes),
            },
            Phase::FileTimes => match input {
                Input::Timed(time) => Self::name_after(kind, &time),
                _ => Step::Done(
                    ConversionOutcome::Failed { error: ConvertError::TimestampUnavailable },
                ),
            },
            Phase::Naming(allocator) => match input {
                Input::Probed { exists: false } => Step::Next(
                    Pipeline { kind, phase: Phase::Pixels(allocator) },
                    Action::ReadSource,
                ),
                _ => Self::retry(kind, allocator),
            },
            Phase::Pixels(allocator) => match input {
                Input::Encoded(data) => {
                    let name = allocator.candidate();
                    Step::Next(
                        Pipeline { kind, phase: Phase::Writing(allocator) },
                        Action::Write { name, data },
                    )
                },
                Input::EncodeFailed => Step::Done(
                    ConversionOutcome::Failed { error: ConvertError::EncodeFailure },
                ),
                _ => Step::Done(ConversionOutcome::Failed { error: ConvertError::DecodeFailure }),
            },
            Phase::Writing(allocator) => match input {
                Input::Written => {
                    let name = allocator.candidate();
                    Step::Next(
                        Pipeline { kind, phase: Phase::Deleting { name } },
                        Action::DeleteSource,
                    )
                },
                Input::NameTaken => Self::retry(kind, allocator),
                _ => Step::Done(ConversionOutcome::Failed { error: ConvertError::WriteFailure }),
            },
            Phase::Deleting { name } => match input {
                Input::Deleted => Step::Done(ConversionOutcome::Converted { name }),
                _ => Step::Done(ConversionOutcome::Failed { error: ConvertError::DeleteFailure }),
            },
        }
    }

    /// Takes one step on an event: looks into it, and advances on what it
    /// comes to. The warnings given on the way come back beside the step,
    /// for the caller to show.
    pub fn step(self, event: Event) -> (r: (Step, Vec<String>))
        ensures
            exists|input: InputView| #[trigger]
                digest_allows(self@, self.kind(), event, input) && r.0@ == advance_spec(
                    self@,
                    input,
                ),
            r.0 matches Step::Next(pipeline, _) ==> pipeline.kind() == self.kind(),
            texts(r.1@) == warnings_of(self@, event),
    {
        let ghost before = self@;
        let ghost kind = self.kind();
        let digest = self.digest(event);
        let ghost digested = digest.input@;
        let next = self.advance(digest.input);
        assert(digest_allows(before, kind, event, digested) && next@ == advance_spec(
            before,
            digested,
        ));
        (next, digest.warnings)
    }
}

/// The source is deleted if and only if the image was written in full: a
/// step asks for the deletion exactly where the conversion waited for the
/// write and hears that it was done. A file counts as converted exactly
/// where the conversion waited for the deletion and hears that it was done.
/// A write is asked for exactly where the source was converted. And a write
/// that found its name taken is followed by the probe of the next candidate,
/// or by the end of the names.
pub proof fn lemma_deletion_answers_write(phase: PhaseView, input: InputView)
    ensures
        advance_spec(phase, input) matches StepView::Next(_, ActionView::DeleteSource) <==> phase
            is Writing && input is Written,
        advance_spec(phase, input) matches StepView::Done(OutcomeView::Converted { .. }) <==> phase
            is Deleting && input is Deleted,
        advance_spec(phase, input) matches StepView::Next(_, ActionView::Write { .. }) <==> phase
            is Pixels && input is Encoded,
        phase matches PhaseView::Writing { stem, counter } ==> (input is NameTaken
            ==> advance_spec(phase, input) == next_candidate(stem, counter)),
        advance_spec(phase, input) matches StepView::Done(
            OutcomeView::Failed { error: ConvertError::WriteFailure },
        ) <==> phase is Writing && !(input is Written) && !(input is NameTaken),
{
}

/// The actions that a conversion asks for, and the outcome that it reaches
/// if it reaches one, as it takes `inputs` one by one from `phase` on. Inputs
/// that follow the outcome are not looked at.
pub open spec fn run(phase: PhaseView, inputs: Seq<InputView>) -> (
    Seq<ActionView>,
    Option<OutcomeView>,
)
    decreases inputs.len(),
{
    if inputs.len() == 0 {
        (Seq::empty(), None)
    } else {
        match advance_spec(phase, inputs[0]) {
            StepView::Next(next, action) => {
                let rest = run(next, inputs.skip(1));
                (seq![action] + rest.0, rest.1)
            },
            StepView::Done(outcome) => (Seq::empty(), Some(outcome)),
        }
    }
}

/// The names under which the actions write a file, in their order.
pub open spec fn written(actions: Seq<ActionView>) -> Seq<Seq<char>>
    decreases actions.len(),
{
    if actions.len() == 0 {
        Seq::empty()
    } else {
        let rest = written(actions.skip(1));
        match actions[0] {
            ActionView::Write { name, .. } => seq![name] + rest,
            _ => rest,
        }
    }
}

/// How many of the actions delete the source.
pub open spec fn deletions(actions: Seq<ActionView>) -> nat
    decreases actions.len(),
{
    if actions.len() == 0 {
        0
    } else {
        let rest = deletions(actions.skip(1));
        if actions[0] is DeleteSource {
            rest + 1
        } else {
            rest
        }
    }
}

/// The name of the write that a phase waits to hear of, or has heard of.
pub open spec fn pending_write(phase: PhaseView) -> Option<Seq<char>> {
    match phase {
        PhaseView::Writing { stem, counter } => Some(candidate_text(stem, counter)),
        PhaseView::Deleting { name } => Some(name),
        _ => None,
    }
}

/// The name of the last write: that of the last of the actions that writes,
/// or the pending one where none of them does.
pub open spec fn last_written(pending: Option<Seq<char>>, actions: Seq<ActionView>) -> Option<
    Seq<char>,
> {
    let names = written(actions);
    if names.len() > 0 {
        Some(names.last())
    } else {
        pending
    }
}

/// What holds of the actions and the outcome of a run, by the phase that it
/// starts from.
pub open spec fn settled(
    phase: PhaseView,
    actions: Seq<ActionView>,
    outcome: Option<OutcomeView>,
) -> bool {
    let last = last_written(pending_write(phase), actions);
    let deleted = deletions(actions);
    match phase {
        PhaseView::Deleting { name } => written(actions).len() == 0 && deleted == 0
            && match outcome {
            Some(OutcomeView::Converted { name: given }) => given == name,
            Some(OutcomeView::Failed { error }) => error == ConvertError::DeleteFailure,
            None => true,
        },
        _ => match outcome {
            Some(OutcomeView::Converted { name }) => last == Some(name) && deleted == 1,
            Some(OutcomeView::Failed { error }) => if error == ConvertError::DeleteFailure {
                last is Some && deleted == 1
            } else if error == ConvertError::WriteFailure {
                last is Some && deleted == 0
            } else {
                deleted == 0
            },
            None => deleted <= 1 && (deleted == 1 ==> last is Some),
        },
    }
}

/// Every run is settled: whatever the inputs, a conversion deletes the
/// source at most once, only after a write was done, and the file that
/// counts as converted is the one that was written last; the writes before
/// it found their names taken.
pub proof fn lemma_run_settled(phase: PhaseView, inputs: Seq<InputView>)
    ensures
        settled(phase, run(phase, inputs).0, run(phase, inputs).1),
    decreases inputs.len(),
{
    if inputs.len() > 0 {
        match advance_spec(phase, inputs[0]) {
            StepView::Next(next, action) => {
                let rest = run(next, inputs.skip(1));
                let actions = seq![action] + rest.0;
                lemma_run_settled(next, inputs.skip(1));
                assert(actions.skip(1) =~= rest.0);
                assert(actions[0] == action);
                assert(deletions(actions) == if action is DeleteSource {
                    deletions(rest.0) + 1
                } else {
                    deletions(rest.0)
                });
                match action {
                    ActionView::Write { name, .. } => {
                        let names = seq![name] + written(rest.0);
                        assert(written(actions) == names);
                        assert(names.last() == if written(rest.0).len() > 0 {
                            written(rest.0).last()
                        } else {
                            name
                        });
                        assert(last_written(pending_write(phase), actions) == last_written(
                            pending_write(next),
                            rest.0,
                        ));
                    },
                    _ => {
                        assert(written(actions) == written(rest.0));
                    },
                }
            },
            StepView::Done(outcome) => {},
        }
    }
}

/// A file that was converted was written under the name of the outcome,
/// and its source was deleted once: whatever the inputs, a run from the
/// first phase that ends in a conversion has asked for a write, the last of
/// its writes has the name of the outcome, and it has asked for exactly one
/// deletion.
pub proof fn lemma_converted_written_and_deleted(inputs: Seq<InputView>, name: Seq<char>)
    requires
        run(PhaseView::Metadata, inputs).1 == Some(OutcomeView::Converted { name }),
    ensures
        written(run(PhaseView::Metadata, inputs).0).len() >= 1,
        written(run(PhaseView::Metadata, inputs).0).last() == name,
        deletions(run(PhaseView::Metadata, inputs).0) == 1,
{
    lemma_run_settled(PhaseView::Metadata, inputs);
}

/// A failure leaves the source alone: whatever the inputs, a run from the
/// first phase that ends in an error has asked for the deletion of the
/// source only where the error is that the deletion failed.
pub proof fn lemma_failure_keeps_source(inputs: Seq<InputView>, error: ConvertError)
    requires
        run(PhaseView::Metadata, inputs).1 == Some(OutcomeView::Failed { error }),
    ensures
        error != ConvertError::DeleteFailure ==> deletions(run(PhaseView::Metadata, inputs).0) == 0,
        error == ConvertError::DeleteFailure ==> deletions(run(PhaseView::Metadata, inputs).0) == 1
            && written(run(PhaseView::Metadata, inputs).0).len() >= 1,
{
    lemma_run_settled(PhaseView::Metadata, inputs);
}

/// Whatever the inputs, a run asks for the deletion of the source at most
/// once, and not unless it has asked for a write before.
pub proof fn lemma_deletion_follows_write(inputs: Seq<InputView>)
    ensures
        deletions(run(PhaseView::Metadata, inputs).0) <= 1,
        deletions(run(PhaseView::Metadata, inputs).0) == 1 ==> written(
            run(PhaseView::Metadata, inputs).0,
        ).len() >= 1,
{
    lemma_run_settled(PhaseView::Metadata, inputs);
}

/// Whether `name` is one of the candidates of `stem`.
pub open spec fn is_candidate(stem: Seq<char>, name: Seq<char>) -> bool {
    exists|k: nat| k <= MAX_SUFFIX && name == #[trigger] candidate_text(stem, k)
}

/// Whether an action keeps to the candidates of `stem`: it probes or writes
/// no other name, and it does not look up the times of the file system.
pub open spec fn action_named_after(stem: Seq<char>, action: ActionView) -> bool {
    match action {
        ActionView::Probe { name } => is_candidate(stem, name),
        ActionView::Write { name, .. } => is_candidate(stem, name),
        ActionView::ReadFileTimes => false,
        _ => true,
    }
}

/// Whether a run keeps to the candidates of `stem` in all its actions and
/// in the name of the converted file.
pub open spec fn named_after(
    stem: Seq<char>,
    actions: Seq<ActionView>,
    outcome: Option<OutcomeView>,
) -> bool {
    &&& forall|i: int| 0 <= i < actions.len() ==> action_named_after(stem, #[trigger] actions[i])
    &&& outcome matches Some(OutcomeView::Converted { name }) ==> is_candidate(stem, name)
}

/// Whether a phase has settled on `stem` for the name of the file.
pub open spec fn phase_named_after(stem: Seq<char>, phase: PhaseView) -> bool {
    match phase {
        PhaseView::Naming { stem: own, counter } => own == stem && counter <= MAX_SUFFIX,
        PhaseView::Pixels { stem: own, counter } => own == stem && counter <= MAX_SUFFIX,
        PhaseView::Writing { stem: own, counter } => own == stem && counter <= MAX_SUFFIX,
        PhaseView::Deleting { name } => is_candidate(stem, name),
        _ => false,
    }
}

/// A step of a conversion that has settled on a stem keeps to it.
pub proof fn lemma_step_keeps_stem(stem: Seq<char>, phase: PhaseView, input: InputView)
    requires
        phase_named_after(stem, phase),
    ensures
        advance_spec(phase, input) matches StepView::Next(next, action) ==> phase_named_after(
            stem,
            next,
        ) && action_named_after(stem, action),
        advance_spec(phase, input) matches StepView::Done(OutcomeView::Converted { name })
            ==> is_candidate(stem, name),
{
    match phase {
        PhaseView::Naming { stem: own, counter } => {
            if counter < MAX_SUFFIX {
                assert(is_candidate(stem, candidate_text(stem, counter + 1)));
            }
        },
        PhaseView::Pixels { stem: own, counter } => {
            assert(is_candidate(stem, candidate_text(stem, counter)));
        },
        PhaseView::Writing { stem: own, counter } => {
            assert(is_candidate(stem, candidate_text(stem, counter)));
            if counter < MAX_SUFFIX {
                assert(is_candidate(stem, candidate_text(stem, counter + 1)));
            }
        },
        _ => {},
    }
}

/// Once a conversion has settled on a stem, it keeps to it.
pub proof fn lemma_names_stay(stem: Seq<char>, phase: PhaseView, inputs: Seq<InputView>)
    requires
        phase_named_after(stem, phase),
    ensures
        named_after(stem, run(phase, inputs).0, run(phase, inputs).1),
    decreases inputs.len(),
{
    if inputs.len() > 0 {
        lemma_step_keeps_stem(stem, phase, inputs[0]);
        match advance_spec(phase, inputs[0]) {
            StepView::Next(next, action) => {
                lemma_names_stay(stem, next, inputs.skip(1));
                let rest = run(next, inputs.skip(1));
                let actions = seq![action] + rest.0;
                assert forall|i: int| 0 <= i < actions.len() implies action_named_after(
                    stem,
                    #[trigger] actions[i],
                ) by {
                    if i > 0 {
                        assert(actions[i] == rest.0[i - 1]);
                    }
                }
            },
            StepView::Done(outcome) => {},
        }
    }
}

/// A capture time from the metadata is final: whatever follows, the
/// conversion never looks up the times of the file system, and it probes,
/// writes and reports no name but a candidate of the stem that this time
/// gives.
pub proof fn lemma_metadata_time_names_file(time: CaptureTimestamp, inputs: Seq<InputView>)
    ensures
        named_after(
            stamp_text(time.local),
            run(PhaseView::Metadata, seq![InputView::Timed(time)] + inputs).0,
            run(PhaseView::Metadata, seq![InputView::Timed(time)] + inputs).1,
        ),
{
    lemma_time_names_file(PhaseView::Metadata, time, inputs);
}

/// Without a capture time from the metadata, the time that comes from the
/// file system names the file: the conversion probes, writes and reports no
/// name but a candidate of the stem that this time gives.
pub proof fn lemma_file_time_names_file(time: CaptureTimestamp, inputs: Seq<InputView>)
    ensures
        named_after(
            stamp_text(time.local),
            run(PhaseView::FileTimes, seq![InputView::Timed(time)] + inputs).0,
            run(PhaseView::FileTimes, seq![InputView::Timed(time)] + inputs).1,
        ),
{
    lemma_time_names_file(PhaseView::FileTimes, time, inputs);
}

proof fn lemma_time_names_file(phase: PhaseView, time: CaptureTimestamp, inputs: Seq<InputView>)
    requires
        phase is Metadata || phase is FileTimes,
    ensures
        named_after(
            stamp_text(time.local),
            run(phase, seq![InputView::Timed(time)] + inputs).0,
            run(phase, seq![InputView::Timed(time)] + inputs).1,
        ),
{
    let stem = stamp_text(time.local);
    let all = seq![InputView::Timed(time)] + inputs;
    let next = PhaseView::Naming { stem, counter: 0 };
    let action = ActionView::Probe { name: candidate_text(stem, 0) };
    assert(all[0] == InputView::Timed(time));
    assert(all.skip(1) =~= inputs);
    assert(advance_spec(phase, all[0]) == StepView::Next(next, action));
    assert(is_candidate(stem, candidate_text(stem, 0)));
    lemma_names_stay(stem, next, inputs);
    let rest = run(next, inputs);
    let actions = seq![action] + rest.0;
    assert(run(phase, all).0 == actions);
    assert forall|i: int| 0 <= i < actions.len() implies action_named_after(
        stem,
        #[trigger] actions[i],
    ) by {
        if i > 0 {
            assert(actions[i] == rest.0[i - 1]);
        }
    }
}

/// The step at which the search for a name ends, when every probe is
/// answered by a directory that holds exactly the names in `taken`.
pub open spec fn search(taken: Set<Seq<char>>, stem: Seq<char>, counter: nat) -> StepView
    decreases MAX_SUFFIX + 1 - counter,
{
    let exists = taken.contains(candidate_text(stem, counter));
    let step = advance_spec(PhaseView::Naming { stem, counter }, InputView::Probed { exists });
    if exists && counter < MAX_SUFFIX {
        search(taken, stem, counter + 1)
    } else {
        step
    }
}

/// The search of a conversion ends where `allocate_from` says: with the
/// first candidate that the directory does not hold as the name to write,
/// or in failure where it holds them all.
pub proof fn lemma_search_allocates(taken: Set<Seq<char>>, stem: Seq<char>, counter: nat)
    requires
        counter <= MAX_SUFFIX,
    ensures
        match allocate_from(taken, stem, counter) {
            Some(name) => search(taken, stem, counter) matches StepView::Next(
                PhaseView::Pixels { stem: own, counter: found },
                ActionView::ReadSource,
            ) && own == stem && counter <= found <= MAX_SUFFIX && candidate_text(stem, found)
                == name,
            None => search(taken, stem, counter) == StepView::Done(
                OutcomeView::Failed { error: ConvertError::NamingExhausted },
            ),
        },
    decreases MAX_SUFFIX - counter,
{
    if taken.contains(candidate_text(stem, counter)) {
        if counter < MAX_SUFFIX {
            lemma_search_allocates(taken, stem, counter + 1);
        } else {
            assert(allocate_from(taken, stem, counter + 1) is None);
        }
    }
}

} // verus!
