//! How the frames that wait for a stream are gathered into batches, so that one
//! write carries several.

use vstd::prelude::*;

use crate::framing::{batch, contents, encode_frames_to_buffer, encoded_batch, first_frames, frame};
use crate::framing::{law_batch_is_encoded, law_batch_length, law_batch_read_back, FrameError};

verus! {

/// What became of a frame that was handed to the queue of a stream.
#[derive(Clone, Copy, Debug, PartialEq, Eq, Structural)]
pub enum SendOutcome {
    /// It was taken.
    Sent,
    /// There was no room in time.
    Full,
    /// The queue is closed.
    Closed,
}

/// How large a batch may grow.
#[derive(Clone, Copy, Debug, PartialEq, Eq, Structural)]
pub struct Limits {
    pub max_frames: usize,
    pub max_bytes: usize,
}

/// How many frames the client writes at once.
pub const CLIENT_MAX_BATCH_FRAMES: usize = 16;

/// At how many bytes the client's batch is full.
pub const CLIENT_MAX_BATCH_BYTES: usize = 65536;

/// How many frames the relay writes at once.
pub const RELAY_MAX_BATCH_FRAMES: usize = 64;

/// At how many bytes the relay's batch is full.
pub const RELAY_MAX_BATCH_BYTES: usize = 524288;

impl Limits {
    /// The limits of the client. They are small, to avoid adding latency.
    pub fn client() -> (r: Limits)
        ensures
            r.max_frames == CLIENT_MAX_BATCH_FRAMES,
            r.max_bytes == CLIENT_MAX_BATCH_BYTES,
    {
        Limits { max_frames: CLIENT_MAX_BATCH_FRAMES, max_bytes: CLIENT_MAX_BATCH_BYTES }
    }

    /// The limits of the relay.
    pub fn relay() -> (r: Limits)
        ensures
            r.max_frames == RELAY_MAX_BATCH_FRAMES,
            r.max_bytes == RELAY_MAX_BATCH_BYTES,
    {
        Limits { max_frames: RELAY_MAX_BATCH_FRAMES, max_bytes: RELAY_MAX_BATCH_BYTES }
    }
}

/// The sum of the lengths of some frames.
pub open spec fn total_len(frames: Seq<Seq<u8>>) -> nat
    decreases frames.len(),
{
    if frames.len() == 0 {
        0
    } else {
        total_len(frames.drop_last()) + frames.last().len()
    }
}

/// Whether one more frame may join.
pub open spec fn has_room(frames: Seq<Seq<u8>>, limits: Limits) -> bool {
    frames.len() < limits.max_frames && total_len(frames) < limits.max_bytes
}

/// Frames that are to be written together.
#[derive(Debug)]
pub struct Batch {
    frames: Vec<Vec<u8>>,
    bytes_total: usize,
}

impl View for Batch {
    type V = Seq<Seq<u8>>;

    closed spec fn view(&self) -> Seq<Seq<u8>> {
        contents(self.frames@)
    }
}

impl Batch {
    /// Whether the running total is right: the sum of the lengths, or the
    /// largest number where the sum is larger than that.
    pub closed spec fn wf(self) -> bool {
        self.bytes_total == if total_len(self@) <= usize::MAX {
            total_len(self@) as usize
        } else {
            usize::MAX
        }
    }

    /// A batch of no frames.
    pub fn new() -> (r: Self)
        ensures
            r.wf(),
            r@ == Seq::<Seq<u8>>::empty(),
    {
        let r = Batch { frames: Vec::new(), bytes_total: 0 };
        assert(r@ =~= Seq::<Seq<u8>>::empty());
        r
    }

    /// Whether there is nothing to write.
    pub fn is_empty(&self) -> (r: bool)
        ensures
            r == (self@.len() == 0),
    {
        self.frames.is_empty()
    }

    /// Whether one more frame may join.
    pub fn has_room(&self, limits: Limits) -> (r: bool)
        requires
            self.wf(),
        ensures
            r == has_room(self@, limits),
    {
        self.frames.len() < limits.max_frames && self.bytes_total < limits.max_bytes
    }

    /// Lets one more frame join, behind the others.
    pub fn push(&mut self, frame: Vec<u8>)
        requires
            old(self).wf(),
        ensures
            final(self).wf(),
            final(self)@ == old(self)@.push(frame@),
    {
        let ghost before = self@;
        self.bytes_total = self.bytes_total.saturating_add(frame.len());
        self.frames.push(frame);
        proof {
            assert(self@ =~= before.push(frame@));
            assert(self@.drop_last() =~= before);
        }
    }

    /// The buffer to write: each frame behind its length, in the order in which
    /// they joined.
    pub fn encode(&self) -> (r: Result<Vec<u8>, FrameError>)
        ensures
            match r {
                Ok(out) => encoded_batch(self@) == Ok::<_, FrameError>(out@),
                Err(e) => encoded_batch(self@) == Err::<Seq<u8>, _>(e),
            },
    {
        encode_frames_to_buffer(self.frames.as_slice())
    }
}

/// How far the gathering of a batch has come.
#[derive(Clone, Copy, Debug, PartialEq, Eq, Structural)]
pub enum WriterPhase {
    /// Taking the control frames that wait already.
    DrainControl,
    /// Nothing has waited: waiting for the first frame.
    Wait,
    /// Filling up: looking for a control frame.
    FillControl,
    /// Filling up: looking for a data frame.
    FillData,
    /// The batch is to be written.
    Ready,
    /// A queue was closed while nothing waited: the writer ends.
    Stopped,
}

/// What the writer asks for next.
#[derive(Clone, Copy, Debug, PartialEq, Eq, Structural)]
pub enum WriterAction {
    /// Take a control frame, if one waits.
    PollControl,
    /// Take a data frame, if one waits.
    PollData,
    /// Wait for a frame from any queue.
    WaitAny,
    /// Write the batch.
    Write,
    /// End.
    Stop,
}

/// What the writer asks for in a phase.
pub open spec fn writer_action(phase: WriterPhase) -> WriterAction {
    match phase {
        WriterPhase::DrainControl | WriterPhase::FillControl => WriterAction::PollControl,
        WriterPhase::Wait => WriterAction::WaitAny,
        WriterPhase::FillData => WriterAction::PollData,
        WriterPhase::Ready => WriterAction::Write,
        WriterPhase::Stopped => WriterAction::Stop,
    }
}

/// The phase in which a batch starts. Control frames go first where there is a
/// queue for them.
pub open spec fn first_phase(has_control: bool) -> WriterPhase {
    if has_control {
        WriterPhase::DrainControl
    } else {
        WriterPhase::Wait
    }
}

/// The phase of a batch that is filled up, or is full.
pub open spec fn fill_phase(frames: Seq<Seq<u8>>, limits: Limits, has_control: bool) -> WriterPhase {
    if !has_room(frames, limits) {
        WriterPhase::Ready
    } else if has_control {
        WriterPhase::FillControl
    } else {
        WriterPhase::FillData
    }
}

/// What a writer has: its phase and the frames it has gathered.
#[verifier::ext_equal]
pub struct WriterView {
    pub phase: WriterPhase,
    pub frames: Seq<Seq<u8>>,
    pub limits: Limits,
    pub has_control: bool,
}

impl WriterView {
    /// The frames are within the limits: no more than allowed, and the bytes
    /// ran over with the last one at the earliest.
    pub open spec fn bounded(self) -> bool {
        &&& self.frames.len() <= self.limits.max_frames
        &&& self.frames.len() > 0 ==> total_len(self.frames.drop_last()) < self.limits.max_bytes
    }

    /// The phase goes with the frames.
    pub open spec fn wf(self) -> bool {
        &&& self.limits.max_frames > 0
        &&& self.limits.max_bytes > 0
        &&& self.bounded()
        &&& match self.phase {
            WriterPhase::DrainControl => self.has_control && has_room(self.frames, self.limits),
            WriterPhase::Wait | WriterPhase::Stopped => self.frames.len() == 0,
            WriterPhase::FillControl => self.has_control && self.frames.len() > 0 && has_room(
                self.frames,
                self.limits,
            ),
            WriterPhase::FillData => self.frames.len() > 0 && has_room(self.frames, self.limits),
            WriterPhase::Ready => self.frames.len() > 0,
        }
    }

    /// The writer after an answer to what it asked for: a frame, or that there
    /// is none.
    pub open spec fn stepped(self, got: Option<Seq<u8>>) -> WriterView {
        match got {
            Some(f) => {
                let frames = self.frames.push(f);
                let phase = if self.phase == WriterPhase::DrainControl && has_room(
                    frames,
                    self.limits,
                ) {
                    WriterPhase::DrainControl
                } else {
                    fill_phase(frames, self.limits, self.has_control)
                };
                WriterView { phase, frames, ..self }
            },
            None => {
                let phase = match self.phase {
                    WriterPhase::DrainControl => if self.frames.len() == 0 {
                        WriterPhase::Wait
                    } else {
                        WriterPhase::FillControl
                    },
                    WriterPhase::Wait => WriterPhase::Stopped,
                    WriterPhase::FillControl => WriterPhase::FillData,
                    WriterPhase::FillData => WriterPhase::Ready,
                    other => other,
                };
                WriterView { phase, ..self }
            },
        }
    }
}

impl WriterView {
    /// The writer at the start of the next batch.
    pub open spec fn restarted(self) -> WriterView {
        WriterView { phase: first_phase(self.has_control), frames: Seq::empty(), ..self }
    }
}

/// The bytes of a frame that came, if one came.
pub open spec fn answer(got: Option<Vec<u8>>) -> Option<Seq<u8>> {
    match got {
        Some(f) => Some(f@),
        None => None,
    }
}

/// Gathering goes on within the limits, and adds what it got behind what it had.
pub proof fn law_writer_keeps_limits(w: WriterView, got: Option<Seq<u8>>)
    requires
        w.wf(),
        w.phase != WriterPhase::Ready,
        w.phase != WriterPhase::Stopped,
    ensures
        w.stepped(got).wf(),
        w.frames.is_prefix_of(w.stepped(got).frames),
        got is None ==> w.stepped(got).frames == w.frames,
{
    if let Some(f) = got {
        assert(w.frames.push(f).drop_last() =~= w.frames);
        assert(w.frames =~= w.frames.push(f).subrange(0, w.frames.len() as int));
        if w.phase == WriterPhase::Wait {
            assert(total_len(w.frames) == 0);
        }
    } else {
        assert(w.frames =~= w.frames.subrange(0, w.frames.len() as int));
    }
}

/// Where there is a control queue, a data frame is asked for only when the
/// control queue had none a moment ago.
pub proof fn law_control_goes_first(w: WriterView, got: Option<Seq<u8>>)
    requires
        w.wf(),
        w.has_control,
        w.phase != WriterPhase::Ready,
        w.phase != WriterPhase::Stopped,
        writer_action(w.stepped(got).phase) == WriterAction::PollData,
    ensures
        writer_action(w.phase) == WriterAction::PollControl,
        got is None,
{
}

/// The sum of the frames' lengths is what they are added up to.
proof fn lemma_total_len(frames: Seq<Seq<u8>>)
    ensures
        total_len(frames) == frames.fold_left(0int, |total: int, f: Seq<u8>| total + f.len()),
    decreases frames.len(),
{
    if frames.len() > 0 {
        lemma_total_len(frames.drop_last());
    }
}

/// One more frame may join while there are fewer frames than allowed and their
/// lengths add up to less than the batch holds, and not otherwise.
pub proof fn law_room(frames: Seq<Seq<u8>>, limits: Limits)
    ensures
        has_room(frames, limits) <==> frames.len() < limits.max_frames && frames.fold_left(
            0int,
            |total: int, f: Seq<u8>| total + f.len(),
        ) < limits.max_bytes,
{
    lemma_total_len(frames);
}

/// A frame that came joins behind the others. The batch is written when it is
/// full, and until then the writer asks for more: for control first, where there
/// is a queue for it.
pub proof fn law_writer_goes_on_until_full(w: WriterView, f: Seq<u8>)
    requires
        w.wf(),
        w.phase != WriterPhase::Ready,
        w.phase != WriterPhase::Stopped,
    ensures
        ({
            let next = w.stepped(Some(f));
            let total = w.frames.push(f).fold_left(
                0int,
                |total: int, f: Seq<u8>| total + f.len(),
            );
            let full = w.frames.len() + 1 >= w.limits.max_frames || total >= w.limits.max_bytes;
            &&& next.frames == w.frames.push(f)
            &&& next.limits == w.limits
            &&& next.has_control == w.has_control
            &&& writer_action(next.phase) == if full {
                WriterAction::Write
            } else if w.has_control {
                WriterAction::PollControl
            } else {
                WriterAction::PollData
            }
        }),
{
    lemma_total_len(w.frames.push(f));
}

/// When nothing comes, the writer looks elsewhere: behind an empty control queue
/// for data, behind an empty data queue nothing, so that what was gathered is
/// written. With nothing gathered it waits, and when a wait gives nothing it
/// ends.
pub proof fn law_writer_without_a_frame(w: WriterView)
    requires
        w.wf(),
        w.phase != WriterPhase::Ready,
        w.phase != WriterPhase::Stopped,
    ensures
        ({
            let next = w.stepped(None);
            let after = writer_action(next.phase);
            &&& next.frames == w.frames
            &&& next.limits == w.limits
            &&& next.has_control == w.has_control
            &&& writer_action(w.phase) == WriterAction::WaitAny ==> after == WriterAction::Stop
            &&& writer_action(w.phase) == WriterAction::PollData ==> after == WriterAction::Write
            &&& writer_action(w.phase) == WriterAction::PollControl && w.frames.len() == 0
                ==> after == WriterAction::WaitAny
            &&& writer_action(w.phase) == WriterAction::PollControl && w.frames.len() > 0
                ==> writer_action(next.stepped(None).phase) == WriterAction::PollData || after
                == WriterAction::PollData
        }),
{
}

/// A batch that is to be written holds at least one frame, no more than allowed,
/// and had not run over before its last frame.
pub proof fn law_written_batch_is_within_limits(w: WriterView)
    requires
        w.wf(),
        writer_action(w.phase) == WriterAction::Write,
    ensures
        0 < w.frames.len() <= w.limits.max_frames,
        w.frames.drop_last().fold_left(0int, |total: int, f: Seq<u8>| total + f.len())
            < w.limits.max_bytes,
{
    lemma_total_len(w.frames.drop_last());
}

/// Both programs' batches can always be encoded: frames that are not empty and
/// no longer than a reader takes never make a batch too large.
pub proof fn law_ready_batch_is_encoded(w: WriterView)
    requires
        w.wf(),
        writer_action(w.phase) == WriterAction::Write,
        w.limits.max_frames <= 64,
        w.limits.max_bytes <= 524288,
        forall|i: int|
            0 <= i < w.frames.len() ==> 0 < (#[trigger] w.frames[i]).len() <= 65536,
    ensures
        encoded_batch(w.frames) == Ok::<_, FrameError>(batch(w.frames)),
{
    vstd::layout::unsigned_int_max_values();
    lemma_total_and_prefixes(w.frames);
    assert(w.frames.last() == w.frames[w.frames.len() - 1]);
    law_batch_length(w.frames);
    law_batch_is_encoded(w.frames);
}

/// The next batch starts with nothing gathered and with what the first one
/// started with: control where there is a queue for it, and otherwise a wait.
pub proof fn law_next_batch_starts_afresh(w: WriterView)
    ensures
        w.restarted().frames.len() == 0,
        w.restarted().limits == w.limits,
        w.restarted().has_control == w.has_control,
        writer_action(w.restarted().phase) == if w.has_control {
            WriterAction::PollControl
        } else {
            WriterAction::WaitAny
        },
{
}

/// A batch is as long as its frames together and four bytes for each.
proof fn lemma_total_and_prefixes(frames: Seq<Seq<u8>>)
    ensures
        batch(frames).len() == total_len(frames) + 4 * frames.len(),
    decreases frames.len(),
{
    if frames.len() > 0 {
        lemma_total_and_prefixes(frames.drop_last());
    }
}

/// Something that happens to a writer and its stream.
pub enum WriterEvent {
    /// What it asked for is answered: with a frame, or that there is none.
    Answered { got: Option<Seq<u8>> },
    /// Its batch is written, and the next one starts.
    Written,
}

/// A writer in the course of its work: what it has, the frames that it was
/// given, and the bytes that went into the stream.
pub struct WriterRun {
    pub writer: WriterView,
    pub taken: Seq<Seq<u8>>,
    pub stream: Seq<u8>,
}

impl WriterRun {
    /// The run after an event. An answer counts where the writer asked for a
    /// frame, and writing where it asked for that and the batch can be encoded.
    pub open spec fn after(self, event: WriterEvent) -> WriterRun {
        match event {
            WriterEvent::Answered { got } => if self.writer.phase == WriterPhase::Ready
                || self.writer.phase == WriterPhase::Stopped {
                self
            } else {
                WriterRun {
                    writer: self.writer.stepped(got),
                    taken: match got {
                        Some(f) => self.taken.push(f),
                        None => self.taken,
                    },
                    stream: self.stream,
                }
            },
            WriterEvent::Written => match encoded_batch(self.writer.frames) {
                Ok(out) => if self.writer.phase == WriterPhase::Ready {
                    WriterRun {
                        writer: self.writer.restarted(),
                        taken: self.taken,
                        stream: self.stream + out,
                    }
                } else {
                    self
                },
                Err(_) => self,
            },
        }
    }

    /// The run after some events.
    pub open spec fn after_all(self, events: Seq<WriterEvent>) -> WriterRun
        decreases events.len(),
    {
        if events.len() == 0 {
            self
        } else {
            self.after_all(events.drop_last()).after(events.last())
        }
    }

    /// Whether the stream holds the frames that were given, in order and each
    /// once, but for those that are still gathered.
    pub open spec fn faithful(self) -> bool {
        self.stream + batch(self.writer.frames) == batch(self.taken)
    }
}

/// Over any number of batches and in any order of events, what was written,
/// followed by the frames that are still gathered, is the frames that were given:
/// none is lost, doubled or moved.
pub proof fn law_stream_holds_what_was_given(run: WriterRun, events: Seq<WriterEvent>)
    requires
        run.faithful(),
    ensures
        run.after_all(events).faithful(),
    decreases events.len(),
{
    if events.len() > 0 {
        let before = run.after_all(events.drop_last());
        law_stream_holds_what_was_given(run, events.drop_last());
        match events.last() {
            WriterEvent::Answered { got: Some(f) } => {
                assert(before.writer.frames.push(f).drop_last() =~= before.writer.frames);
                assert(before.taken.push(f).drop_last() =~= before.taken);
                assert(before.stream + (batch(before.writer.frames) + frame(f)) =~= before.stream
                    + batch(before.writer.frames) + frame(f));
            },
            WriterEvent::Answered { got: None } => {},
            WriterEvent::Written => {
                let out = batch(before.writer.frames);
                assert(before.stream + out + Seq::<u8>::empty() =~= before.stream + out);
            },
        }
    }
}

/// A reader of the stream of a new writer gets the frames that the writer was
/// given, once all are written: each whole, in order, and nothing else.
pub proof fn law_reader_gets_what_was_given(
    writer: WriterView,
    events: Seq<WriterEvent>,
    max_len: usize,
)
    requires
        writer.frames.len() == 0,
        ({
            let run = WriterRun { writer, taken: Seq::empty(), stream: Seq::empty() };
            let end = run.after_all(events);
            &&& end.writer.frames.len() == 0
            &&& forall|i: int|
                0 <= i < end.taken.len() ==> 0 < (#[trigger] end.taken[i]).len() <= max_len
                    && end.taken[i].len() <= u32::MAX
        }),
    ensures
        ({
            let run = WriterRun { writer, taken: Seq::empty(), stream: Seq::empty() };
            let end = run.after_all(events);
            first_frames(end.stream, end.taken.len(), max_len) == Ok::<_, FrameError>(
                (end.taken, Seq::<u8>::empty()),
            )
        }),
{
    let run = WriterRun { writer, taken: Seq::empty(), stream: Seq::empty() };
    let end = run.after_all(events);
    assert(run.stream + batch(writer.frames) =~= batch(run.taken));
    law_stream_holds_what_was_given(run, events);
    assert(end.stream =~= batch(end.taken) + Seq::<u8>::empty());
    law_batch_read_back(end.taken, Seq::empty(), max_len);
}

/// Gathers frames for a stream, one batch after the other.
#[derive(Debug)]
pub struct Writer {
    batch: Batch,
    phase: WriterPhase,
    limits: Limits,
    has_control: bool,
}

impl View for Writer {
    type V = WriterView;

    closed spec fn view(&self) -> WriterView {
        WriterView {
            phase: self.phase,
            frames: self.batch@,
            limits: self.limits,
            has_control: self.has_control,
        }
    }
}

impl Writer {
    /// Whether the writer is as it should be.
    pub closed spec fn wf(self) -> bool {
        self.batch.wf() && self@.wf()
    }

    /// The client's writer: it has a control queue and a data queue.
    pub fn client() -> (r: Self)
        ensures
            r.wf(),
            r@.wf(),
            r@.has_control,
            r@.phase == first_phase(true),
            r@.frames.len() == 0,
            r@.limits.max_frames == CLIENT_MAX_BATCH_FRAMES,
            r@.limits.max_bytes == CLIENT_MAX_BATCH_BYTES,
    {
        Writer {
            batch: Batch::new(),
            phase: WriterPhase::DrainControl,
            limits: Limits::client(),
            has_control: true,
        }
    }

    /// The relay's writer: it has one queue for all frames.
    pub fn relay() -> (r: Self)
        ensures
            r.wf(),
            r@.wf(),
            !r@.has_control,
            r@.phase == first_phase(false),
            r@.frames.len() == 0,
            r@.limits.max_frames == RELAY_MAX_BATCH_FRAMES,
            r@.limits.max_bytes == RELAY_MAX_BATCH_BYTES,
    {
        Writer {
            batch: Batch::new(),
            phase: WriterPhase::Wait,
            limits: Limits::relay(),
            has_control: false,
        }
    }

    /// What the writer asks for next.
    pub fn action(&self) -> (r: WriterAction)
        ensures
            r == writer_action(self@.phase),
    {
        match self.phase {
            WriterPhase::DrainControl => WriterAction::PollControl,
            WriterPhase::Wait => WriterAction::WaitAny,
            WriterPhase::FillControl => WriterAction::PollControl,
            WriterPhase::FillData => WriterAction::PollData,
            WriterPhase::Ready => WriterAction::Write,
            WriterPhase::Stopped => WriterAction::Stop,
        }
    }

    /// Takes the answer to what the writer asked for: a frame, or that there is
    /// none. A writer that asks for nothing is left as it is.
    pub fn step(&mut self, got: Option<Vec<u8>>)
        requires
            old(self).wf(),
        ensures
            final(self).wf(),
            final(self)@.wf(),
            final(self)@ == if old(self)@.phase == WriterPhase::Ready || old(self)@.phase
                == WriterPhase::Stopped {
                old(self)@
            } else {
                old(self)@.stepped(answer(got))
            },
    {
        let ghost before = self@;
        let ghost answer = answer(got);
        if self.phase == WriterPhase::Ready || self.phase == WriterPhase::Stopped {
            return;
        }
        match got {
            Some(f) => {
                self.batch.push(f);
                let room = self.batch.has_room(self.limits);
                if !room {
                    self.phase = WriterPhase::Ready;
                } else if self.phase != WriterPhase::DrainControl {
                    self.phase = if self.has_control {
                        WriterPhase::FillControl
                    } else {
                        WriterPhase::FillData
                    };
                }
            },
            None => {
                self.phase = match self.phase {
                    WriterPhase::DrainControl => if self.batch.is_empty() {
                        WriterPhase::Wait
                    } else {
                        WriterPhase::FillControl
                    },
                    WriterPhase::Wait => WriterPhase::Stopped,
                    WriterPhase::FillControl => WriterPhase::FillData,
                    WriterPhase::FillData => WriterPhase::Ready,
                    other => other,
                };
            },
        }
        proof {
            law_writer_keeps_limits(before, answer);
            assert(self@ =~= before.stepped(answer));
        }
    }

    /// The buffer to write: the frames in the order in which they came.
    pub fn encode(&self) -> (r: Result<Vec<u8>, FrameError>)
        ensures
            match r {
                Ok(out) => encoded_batch(self@.frames) == Ok::<_, FrameError>(out@),
                Err(e) => encoded_batch(self@.frames) == Err::<Seq<u8>, _>(e),
            },
    {
        self.batch.encode()
    }

    /// Starts the next batch, when the last one has been written.
    pub fn restart(&mut self)
        requires
            old(self).wf(),
        ensures
            final(self).wf(),
            final(self)@.wf(),
            final(self)@ == old(self)@.restarted(),
    {
        self.batch = Batch::new();
        self.phase = if self.has_control {
            WriterPhase::DrainControl
        } else {
            WriterPhase::Wait
        };
    }
}

} // verus!
