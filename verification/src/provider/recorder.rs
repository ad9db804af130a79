//! What is recorded of a call to a provider while it runs. The recorder says what to store; whether
//! that succeeded comes back to it.
use crate::data;
use crate::error::Error;
use crate::json;
use crate::json::{Json, JsonView};
use crate::model::usage::Usage;
use crate::provider::event;
use crate::provider::event::{is_valid_response_event, FinishReason, ModelEvent, ModelEventView};
use crate::text;
use vstd::prelude::*;

verus! {

/// How many pieces of a response are held back at most.
pub const MAX_BUFFERED_CHUNKS: usize = 32;

/// How many bytes of a response are held back at most.
pub const MAX_BUFFERED_BYTES: usize = 262_144;

/// How long a piece is held back at most, in nanoseconds.
pub const MAX_BUFFER_AGE_NS: u64 = 50_000_000;

/// A piece of a response that waits to be stored. Its bytes are kept where calls are recorded in
/// detail.
#[derive(Debug)]
pub struct BufferedChunk {
    pub seq: i64,
    pub elapsed_ms: i64,
    pub data: Option<Vec<u8>>,
    pub byte_count: usize,
}

#[verifier::ext_equal]
pub struct BufferedChunkView {
    pub seq: i64,
    pub elapsed_ms: i64,
    pub data: Option<Seq<u8>>,
    pub byte_count: usize,
}

impl View for BufferedChunk {
    type V = BufferedChunkView;

    open spec fn view(&self) -> BufferedChunkView {
        BufferedChunkView {
            seq: self.seq,
            elapsed_ms: self.elapsed_ms,
            data: data::option_view(self.data),
            byte_count: self.byte_count,
        }
    }
}

/// How many bytes pieces of a response hold.
pub open spec fn bytes_of(chunks: Seq<BufferedChunkView>) -> nat
    decreases chunks.len(),
{
    if chunks.len() == 0 {
        0
    } else {
        bytes_of(chunks.drop_last()) + chunks.last().byte_count as nat
    }
}

/// How many milliseconds lie between two times in nanoseconds.
pub open spec fn elapsed(started: u64, now: u64) -> int {
    let ms = if now < started {
        0
    } else {
        (now - started) / 1_000_000
    };
    if ms > i64::MAX {
        i64::MAX as int
    } else {
        ms
    }
}

/// How many milliseconds lie between two times in nanoseconds.
pub fn elapsed_ms(started: u64, now: u64) -> (r: i64)
    ensures
        r == elapsed(started, now),
{
    if now < started {
        0
    } else {
        ((now - started) / 1_000_000) as i64
    }
}

/// The number after `seq`; the lowest one follows the highest.
pub open spec fn next_seq(seq: i64) -> i64 {
    if seq == i64::MAX {
        i64::MIN
    } else {
        (seq + 1) as i64
    }
}

/// The call that is under way, under one of the names that its attempts have.
#[derive(Debug)]
pub struct CallRecorder {
    base_call_id: String,
    detailed: bool,
    call_id: String,
    started: u64,
    next_chunk: i64,
    chunks: Vec<BufferedChunk>,
    bytes: usize,
    first_chunk_at: Option<u64>,
    generation: u64,
    next_generation: u64,
    retries: u32,
    finished: bool,
    first_text_recorded: bool,
    first_valid_response_recorded: bool,
}

#[verifier::ext_equal]
pub struct RecorderView {
    pub base_call_id: Seq<char>,
    pub detailed: bool,
    /// The name of the attempt.
    pub call_id: Seq<char>,
    /// When the attempt started, in nanoseconds.
    pub started: u64,
    pub next_chunk: i64,
    pub chunks: Seq<BufferedChunkView>,
    pub first_chunk_at: Option<u64>,
    /// Which filling of the buffer this is.
    pub generation: u64,
    pub next_generation: u64,
    pub retries: u32,
    pub finished: bool,
    pub first_text_recorded: bool,
    pub first_valid_response_recorded: bool,
}

/// What has to be done with a piece of a response that arrived.
#[derive(Debug)]
pub struct ChunkAction {
    /// The pieces to store now.
    pub flush: Option<Vec<BufferedChunk>>,
    /// Once that succeeded: the filling of the buffer that is stored after the longest time that a
    /// piece is held back.
    pub schedule: Option<u64>,
}

/// What follows from an event, once it was noted as the first of its kind where it is that.
#[derive(Debug)]
pub enum FollowUp {
    Nothing,
    /// The first text is to be recorded.
    FirstText,
    /// The usage is to be recorded.
    Usage(Usage),
    /// The call is finished.
    Complete(FinishReason),
}

/// How a call ended.
#[derive(Debug)]
pub struct CallEnd {
    pub status: String,
    pub reason: Option<String>,
    pub error_kind: Option<String>,
    pub error_message: Option<String>,
}

#[verifier::ext_equal]
pub struct CallEndView {
    pub status: Seq<char>,
    pub reason: Option<Seq<char>>,
    pub error_kind: Option<Seq<char>>,
    pub error_message: Option<Seq<char>>,
}

impl View for CallEnd {
    type V = CallEndView;

    open spec fn view(&self) -> CallEndView {
        CallEndView {
            status: self.status@,
            reason: data::option_view(self.reason),
            error_kind: data::option_view(self.error_kind),
            error_message: data::option_view(self.error_message),
        }
    }
}

/// The name under which a reason to stop is filed.
pub open spec fn reason_name(reason: FinishReason) -> Seq<char> {
    match reason {
        FinishReason::Stop => "stop"@,
        FinishReason::Length => "length"@,
        FinishReason::ToolUse => "tool_use"@,
    }
}

/// The name under which a reason to stop is filed.
pub fn finish_reason(reason: FinishReason) -> (r: &'static str)
    ensures
        r@ == reason_name(reason),
{
    match reason {
        FinishReason::Stop => "stop",
        FinishReason::Length => "length",
        FinishReason::ToolUse => "tool_use",
    }
}

/// The kind under which a failed call is filed.
pub fn error_kind(error: &Error) -> (r: &'static str)
    ensures
        r@ == error@.kind(),
{
    match error {
        Error::Provider(_) => "provider",
        Error::Http(_) => "provider",
        Error::Cancelled => "cancelled",
        Error::Database(_) => "store",
        Error::Store(_) => "store",
        Error::Protocol(_) => "internal",
        Error::Config(_) => "internal",
        Error::RunNotFound(_) => "internal",
        Error::Json(_) => "internal",
    }
}

/// The end of a call that the provider completed.
pub fn completed(reason: FinishReason) -> (r: CallEnd)
    ensures
        r@ == (CallEndView {
            status: "completed"@,
            reason: Some(reason_name(reason)),
            error_kind: None,
            error_message: None,
        }),
{
    CallEnd {
        status: "completed".to_owned(),
        reason: Some(finish_reason(reason).to_owned()),
        error_kind: None,
        error_message: None,
    }
}

/// The end of a call that failed.
pub fn failed(error: &Error) -> (r: CallEnd)
    ensures
        r@ == (CallEndView {
            status: "error"@,
            reason: None,
            error_kind: Some(error@.kind()),
            error_message: Some(error@.told()),
        }),
{
    CallEnd {
        status: "error".to_owned(),
        reason: None,
        error_kind: Some(error_kind(error).to_owned()),
        error_message: Some(error.message()),
    }
}

/// The end of a call that was cancelled.
pub fn cancelled() -> (r: CallEnd)
    ensures
        r@ == (CallEndView {
            status: "cancelled"@,
            reason: None,
            error_kind: None,
            error_message: None,
        }),
{
    CallEnd { status: "cancelled".to_owned(), reason: None, error_kind: None, error_message: None }
}

impl View for CallRecorder {
    type V = RecorderView;

    closed spec fn view(&self) -> RecorderView {
        RecorderView {
            base_call_id: self.base_call_id@,
            detailed: self.detailed,
            call_id: self.call_id@,
            started: self.started,
            next_chunk: self.next_chunk,
            chunks: data::views(self.chunks@),
            first_chunk_at: self.first_chunk_at,
            generation: self.generation,
            next_generation: self.next_generation,
            retries: self.retries,
            finished: self.finished,
            first_text_recorded: self.first_text_recorded,
            first_valid_response_recorded: self.first_valid_response_recorded,
        }
    }
}

/// The name of an attempt that follows others.
pub open spec fn retry_name(base: Seq<char>, number: nat) -> Seq<char> {
    base + ":retry-"@ + text::decimal(number)
}

impl RecorderView {
    /// The piece of a response that arrives now.
    pub open spec fn chunk(self, data: Seq<u8>, now: u64) -> BufferedChunkView {
        BufferedChunkView {
            seq: self.next_chunk,
            elapsed_ms: elapsed(self.started, now) as i64,
            data: if self.detailed {
                Some(data)
            } else {
                None
            },
            byte_count: data.len() as usize,
        }
    }

    /// The recorder with a piece of a response in its buffer. The first piece of a filling starts
    /// the time that the filling may wait.
    pub open spec fn buffered(self, data: Seq<u8>, now: u64) -> RecorderView {
        let first = self.chunks.len() == 0;
        let generation = if self.next_generation == u64::MAX {
            0
        } else {
            (self.next_generation + 1) as u64
        };
        RecorderView {
            next_chunk: next_seq(self.next_chunk),
            chunks: self.chunks.push(self.chunk(data, now)),
            first_chunk_at: if first {
                Some(now)
            } else {
                self.first_chunk_at
            },
            generation: if first {
                generation
            } else {
                self.generation
            },
            next_generation: if first {
                generation
            } else {
                self.next_generation
            },
            ..self
        }
    }

    /// Whether what waits has to be stored.
    pub open spec fn is_full(self, now: u64) -> bool {
        ||| self.chunks.len() >= MAX_BUFFERED_CHUNKS
        ||| bytes_of(self.chunks) >= MAX_BUFFERED_BYTES
        ||| (self.first_chunk_at matches Some(first) && now - first >= MAX_BUFFER_AGE_NS)
    }

    /// The recorder without pieces that wait.
    pub open spec fn emptied(self) -> RecorderView {
        if self.chunks.len() == 0 {
            self
        } else {
            RecorderView { chunks: Seq::empty(), first_chunk_at: None, ..self }
        }
    }

    /// The pieces that wait, where there are any.
    pub open spec fn waiting(self) -> Option<Seq<BufferedChunkView>> {
        if self.chunks.len() == 0 {
            None
        } else {
            Some(self.chunks)
        }
    }

    /// The recorder of an attempt that starts now.
    pub open spec fn restarted(self, call_id: Seq<char>, now: u64) -> RecorderView {
        RecorderView {
            call_id,
            started: now,
            next_chunk: 0,
            chunks: Seq::empty(),
            first_chunk_at: None,
            generation: 0,
            finished: false,
            first_text_recorded: false,
            first_valid_response_recorded: false,
            ..self
        }
    }
}

/// The views of pieces to store.
pub open spec fn chunks_view(chunks: Option<Vec<BufferedChunk>>) -> Option<Seq<BufferedChunkView>> {
    match chunks {
        Some(chunks) => Some(data::views(chunks@)),
        None => None,
    }
}

impl CallRecorder {
    /// The buffer knows how many bytes it holds, and since when it holds any.
    pub closed spec fn wf(self) -> bool {
        &&& self.bytes == bytes_of(data::views(self.chunks@))
        &&& (self.first_chunk_at is Some) == (self.chunks@.len() > 0)
    }

    /// How many bytes wait.
    pub open spec fn waiting_bytes(self) -> nat {
        bytes_of(self@.chunks)
    }

    /// How many bytes wait.
    pub fn buffered_bytes(&self) -> (r: usize)
        requires
            self.wf(),
        ensures
            r == self.waiting_bytes(),
    {
        self.bytes
    }

    /// The recorder of a call that starts now.
    pub fn start(call_id: String, detailed: bool, now: u64) -> (r: Self)
        ensures
            r.wf(),
            r@ == (RecorderView {
                base_call_id: call_id@,
                detailed,
                call_id: call_id@,
                started: now,
                next_chunk: 0,
                chunks: Seq::empty(),
                first_chunk_at: None,
                generation: 0,
                next_generation: 0,
                retries: 0,
                finished: false,
                first_text_recorded: false,
                first_valid_response_recorded: false,
            }),
    {
        let chunks: Vec<BufferedChunk> = Vec::new();
        assert(data::views(chunks@) =~= Seq::<BufferedChunkView>::empty());
        CallRecorder {
            base_call_id: call_id.clone(),
            detailed,
            call_id,
            started: now,
            next_chunk: 0,
            chunks,
            bytes: 0,
            first_chunk_at: None,
            generation: 0,
            next_generation: 0,
            retries: 0,
            finished: false,
            first_text_recorded: false,
            first_valid_response_recorded: false,
        }
    }

    /// Whether calls are recorded in detail.
    pub fn detailed(&self) -> (r: bool)
        ensures
            r == self@.detailed,
    {
        self.detailed
    }

    /// Whether the attempt has ended.
    pub fn is_finished(&self) -> (r: bool)
        ensures
            r == self@.finished,
    {
        self.finished
    }

    /// The name of the attempt.
    pub fn call_id(&self) -> (r: String)
        ensures
            r@ == self@.call_id,
    {
        self.call_id.clone()
    }

    /// How long the attempt has been going on.
    pub fn elapsed(&self, now: u64) -> (r: i64)
        ensures
            r == elapsed(self@.started, now),
    {
        elapsed_ms(self.started, now)
    }

    /// A piece of a response arrived. It waits with others, unless the attempt has ended; what waits
    /// is stored where it has become much or old.
    pub fn response_chunk(&mut self, data: Vec<u8>, now: u64) -> (r: ChunkAction)
        requires
            old(self).wf(),
            old(self).waiting_bytes() + data@.len() <= usize::MAX,
        ensures
            final(self).wf(),
            old(self)@.finished ==> r.flush is None && r.schedule is None && final(self)@ == old(self)@,
            !old(self)@.finished ==> ({
                let more = old(self)@.buffered(data@, now);
                &&& r.schedule == (if old(self)@.chunks.len() == 0 {
                    Some(more.generation)
                } else {
                    None
                })
                &&& if more.is_full(now) {
                    chunks_view(r.flush) == Some(more.chunks) && final(self)@ == more.emptied()
                } else {
                    r.flush is None && final(self)@ == more
                }
            }),
    {
        if self.finished {
            return ChunkAction { flush: None, schedule: None };
        }
        let ghost before = data::views(self.chunks@);
        assert(before.len() == self.chunks@.len());
        let seq = self.next_chunk;
        self.next_chunk = if seq == i64::MAX {
            i64::MIN
        } else {
            seq + 1
        };
        let first = self.chunks.len() == 0;
        if first {
            self.next_generation = if self.next_generation == u64::MAX {
                0
            } else {
                self.next_generation + 1
            };
            self.generation = self.next_generation;
            self.first_chunk_at = Some(now);
        }
        let schedule = if first {
            Some(self.generation)
        } else {
            None
        };
        let byte_count = data.len();
        self.bytes = self.bytes + byte_count;
        let chunk = BufferedChunk {
            seq,
            elapsed_ms: elapsed_ms(self.started, now),
            data: if self.detailed {
                Some(data)
            } else {
                None
            },
            byte_count,
        };
        self.chunks.push(chunk);
        assert(data::views(self.chunks@) =~= before.push(chunk@));
        assert(data::views(self.chunks@).drop_last() =~= before);
        let expired = match self.first_chunk_at {
            Some(since) => now >= since && now - since >= MAX_BUFFER_AGE_NS,
            None => false,
        };
        let full = self.chunks.len() >= MAX_BUFFERED_CHUNKS || self.bytes >= MAX_BUFFERED_BYTES
            || expired;
        let flush = if full {
            self.take()
        } else {
            None
        };
        ChunkAction { flush, schedule }
    }

    /// Takes the pieces that wait out of the buffer.
    fn take(&mut self) -> (r: Option<Vec<BufferedChunk>>)
        requires
            old(self).wf(),
        ensures
            final(self).wf(),
            chunks_view(r) == old(self)@.waiting(),
            final(self)@ == old(self)@.emptied(),
    {
        assert(data::views(self.chunks@).len() == self.chunks@.len());
        if self.chunks.len() == 0 {
            return None;
        }
        let mut chunks: Vec<BufferedChunk> = Vec::new();
        core::mem::swap(&mut chunks, &mut self.chunks);
        self.bytes = 0;
        self.first_chunk_at = None;
        assert(data::views(self.chunks@) =~= Seq::<BufferedChunkView>::empty());
        Some(chunks)
    }

    /// The time that a filling of the buffer may wait is over: what it holds is to be stored, unless
    /// the buffer was filled anew since.
    pub fn flush_generation(&mut self, generation: u64) -> (r: Option<Vec<BufferedChunk>>)
        requires
            old(self).wf(),
        ensures
            final(self).wf(),
            old(self)@.generation != generation ==> r is None && final(self)@ == old(self)@,
            old(self)@.generation == generation ==> chunks_view(r) == old(self)@.waiting() && final(self)@ == old(self)@.emptied(),
    {
        if self.generation != generation {
            return None;
        }
        self.take()
    }

    /// Pieces could not be stored: they wait again, in front of nothing, as they were taken.
    pub fn on_flush_failed(&mut self, chunks: Vec<BufferedChunk>, now: u64)
        requires
            old(self).wf(),
            old(self)@.chunks.len() == 0,
            chunks@.len() > 0,
            bytes_of(data::views(chunks@)) <= usize::MAX,
        ensures
            final(self).wf(),
            final(self)@ == (RecorderView {
                chunks: data::views(chunks@),
                first_chunk_at: Some(now),
                ..old(self)@
            }),
    {
        let ghost all = data::views(chunks@);
        let mut bytes: usize = 0;
        let mut i: usize = 0;
        assert(all.take(0) =~= Seq::empty());
        while i < chunks.len()
            invariant
                i <= chunks@.len(),
                all == data::views(chunks@),
                bytes == bytes_of(all.take(i as int)),
                bytes_of(all) <= usize::MAX,
            decreases chunks@.len() - i,
        {
            proof {
                lemma_bytes_grow(all, i + 1);
                assert(all.take(i + 1).drop_last() =~= all.take(i as int));
                assert(all.take(i + 1).last() == chunks@[i as int]@);
            }
            bytes = bytes + chunks[i].byte_count;
            i += 1;
        }
        assert(all.take(i as int) =~= all);
        self.bytes = bytes;
        self.first_chunk_at = Some(now);
        self.chunks = chunks;
    }

    /// Whether an event is the first valid piece of a response, which is then to be recorded.
    pub fn first_valid_response(&mut self, event: &ModelEvent) -> (r: bool)
        requires
            old(self).wf(),
        ensures
            final(self).wf(),
            r == (event::is_response(event@) && !old(self)@.first_valid_response_recorded),
            final(self)@ == (RecorderView {
                first_valid_response_recorded: old(self)@.first_valid_response_recorded || r,
                ..old(self)@
            }),
    {
        if is_valid_response_event(event) && !self.first_valid_response_recorded {
            self.first_valid_response_recorded = true;
            true
        } else {
            false
        }
    }

    /// The first valid piece of a response could not be recorded.
    pub fn on_first_valid_response_failed(&mut self)
        requires
            old(self).wf(),
        ensures
            final(self).wf(),
            final(self)@ == (RecorderView { first_valid_response_recorded: false, ..old(self)@ }),
    {
        self.first_valid_response_recorded = false;
    }

    /// What an event leads to.
    pub fn follow_up(&mut self, event: &ModelEvent) -> (r: FollowUp)
        requires
            old(self).wf(),
        ensures
            final(self).wf(),
            match event@ {
                ModelEventView::TextDelta(delta) => {
                    let first = !text::blank(delta) && !old(self)@.first_text_recorded;
                    &&& (r == FollowUp::FirstText) == first
                    &&& !first ==> r == FollowUp::Nothing
                    &&& final(self)@ == (RecorderView {
                        first_text_recorded: old(self)@.first_text_recorded || first,
                        ..old(self)@
                    })
                },
                ModelEventView::Usage(usage) => r == FollowUp::Usage(usage) && final(self)@ == old(self)@,
                ModelEventView::Done(reason) => r == FollowUp::Complete(reason) && final(self)@
                    == old(self)@,
                _ => r == FollowUp::Nothing && final(self)@ == old(self)@,
            },
    {
        match event {
            ModelEvent::TextDelta(delta) => {
                if !text::is_blank(delta.as_str()) && !self.first_text_recorded {
                    self.first_text_recorded = true;
                    FollowUp::FirstText
                } else {
                    FollowUp::Nothing
                }
            },
            ModelEvent::Usage(usage) => FollowUp::Usage(*usage),
            ModelEvent::Done(reason) => FollowUp::Complete(*reason),
            _ => FollowUp::Nothing,
        }
    }

    /// The first text could not be recorded.
    pub fn on_first_text_failed(&mut self)
        requires
            old(self).wf(),
        ensures
            final(self).wf(),
            final(self)@ == (RecorderView { first_text_recorded: false, ..old(self)@ }),
    {
        self.first_text_recorded = false;
    }

    /// The attempt ends. None where it has ended before; otherwise the pieces to store first, and
    /// then the end itself is to be recorded.
    pub fn finish(&mut self) -> (r: Option<Option<Vec<BufferedChunk>>>)
        requires
            old(self).wf(),
        ensures
            final(self).wf(),
            old(self)@.finished ==> r is None && final(self)@ == old(self)@,
            !old(self)@.finished ==> r is Some && chunks_view(r->0) == old(self)@.waiting() && final(self)@ == (RecorderView { finished: true, ..old(self)@.emptied() }),
    {
        if self.finished {
            return None;
        }
        let chunks = self.take();
        self.finished = true;
        Some(chunks)
    }

    /// The end of the attempt could not be recorded, or the pieces before it could not.
    pub fn on_finish_failed(&mut self)
        requires
            old(self).wf(),
        ensures
            final(self).wf(),
            final(self)@ == (RecorderView { finished: false, ..old(self)@ }),
    {
        self.finished = false;
    }

    /// The name of the next attempt.
    pub fn next_attempt(&mut self) -> (r: String)
        requires
            old(self).wf(),
            old(self)@.retries < u32::MAX,
        ensures
            final(self).wf(),
            r@ == retry_name(old(self)@.base_call_id, (old(self)@.retries + 1) as nat),
            final(self)@ == (RecorderView {
                retries: (old(self)@.retries + 1) as u32,
                ..old(self)@
            }),
    {
        self.retries += 1;
        text::concat3(
            self.base_call_id.as_str(),
            ":retry-",
            text::decimal_u64(self.retries as u64).as_str(),
        )
    }

    /// The next attempt was recorded as started: everything begins anew, under its name.
    pub fn on_retry_started(&mut self, call_id: String, now: u64)
        requires
            old(self).wf(),
        ensures
            final(self).wf(),
            final(self)@ == old(self)@.restarted(call_id@, now),
    {
        self.call_id = call_id;
        self.started = now;
        self.next_chunk = 0;
        self.chunks = Vec::new();
        self.bytes = 0;
        self.first_chunk_at = None;
        self.generation = 0;
        self.finished = false;
        self.first_text_recorded = false;
        self.first_valid_response_recorded = false;
        assert(data::views(self.chunks@) =~= Seq::<BufferedChunkView>::empty());
    }
}

/// Some of the pieces never hold more than all of them.
proof fn lemma_bytes_grow(chunks: Seq<BufferedChunkView>, n: int)
    requires
        0 <= n <= chunks.len(),
    ensures
        bytes_of(chunks.take(n)) <= bytes_of(chunks),
    decreases chunks.len() - n,
{
    if n < chunks.len() {
        lemma_bytes_grow(chunks.drop_last(), n);
        assert(chunks.drop_last().take(n) =~= chunks.take(n));
    } else {
        assert(chunks.take(n) =~= chunks);
    }
}

/// Between two calls less waits than the bounds allow: a recorder whose buffer is within them keeps
/// it within them, whatever arrives.
pub proof fn law_buffer_stays_within_bounds(recorder: RecorderView, data: Seq<u8>, now: u64)
    ensures
        ({
            let more = recorder.buffered(data, now);
            let next = if more.is_full(now) {
                more.emptied()
            } else {
                more
            };
            next.chunks.len() < MAX_BUFFERED_CHUNKS && bytes_of(next.chunks) < MAX_BUFFERED_BYTES
        }),
{
}

/// No piece is lost, doubled or put out of its place: what is stored and what waits afterwards are
/// together what waited before and the new piece.
pub proof fn law_pieces_keep_their_order(recorder: RecorderView, data: Seq<u8>, now: u64)
    ensures
        ({
            let more = recorder.buffered(data, now);
            let (stored, next) = if more.is_full(now) {
                (more.chunks, more.emptied())
            } else {
                (Seq::empty(), more)
            };
            stored + next.chunks == recorder.chunks.push(recorder.chunk(data, now))
        }),
{
    let more = recorder.buffered(data, now);
    if more.is_full(now) {
        assert(more.chunks + Seq::empty() =~= more.chunks);
    } else {
        assert(Seq::<BufferedChunkView>::empty() + more.chunks =~= more.chunks);
    }
}

/// No two attempts of a call have the same name, and none has the name of the first.
pub proof fn law_attempts_have_their_own_names(base: Seq<char>, a: nat, b: nat)
    requires
        a != b,
    ensures
        retry_name(base, a) != retry_name(base, b),
        retry_name(base, a) != base,
{
    text::lemma_decimal_reads_back(a);
    text::lemma_decimal_reads_back(b);
    let start = base + ":retry-"@;
    assert(retry_name(base, a).skip(start.len() as int) =~= text::decimal(a));
    assert(retry_name(base, b).skip(start.len() as int) =~= text::decimal(b));
    assert(retry_name(base, a).len() > base.len());
}

/// A header of a request: its value, where it is text, and whether it is a secret.
#[derive(Debug)]
pub struct RequestHeader {
    pub name: String,
    pub value: Option<String>,
    pub sensitive: bool,
}

#[verifier::ext_equal]
pub struct RequestHeaderView {
    pub name: Seq<char>,
    pub value: Option<Seq<char>>,
    pub sensitive: bool,
}

impl View for RequestHeader {
    type V = RequestHeaderView;

    open spec fn view(&self) -> RequestHeaderView {
        RequestHeaderView {
            name: self.name@,
            value: data::option_view(self.value),
            sensitive: self.sensitive,
        }
    }
}

/// What is recorded of headers: the values that are text and no secret. A later value takes the
/// place of an earlier one of the same name.
pub open spec fn recorded(headers: Seq<RequestHeaderView>) -> Seq<(Seq<char>, JsonView)>
    decreases headers.len(),
{
    if headers.len() == 0 {
        Seq::empty()
    } else {
        let rest = recorded(headers.drop_last());
        let header = headers.last();
        match header.value {
            Some(value) => if header.sensitive {
                rest
            } else {
                json::with_member(rest, header.name, JsonView::String(value))
            },
            None => rest,
        }
    }
}

/// What is recorded of the headers of a request: those that every request has, and then those that
/// the user added.
pub fn recorded_headers(headers: &Vec<RequestHeader>) -> (r: Json)
    ensures
        r@ == JsonView::Object(recorded(data::views(headers@))),
{
    let ghost all = data::views(headers@);
    let members: Vec<(String, Json)> = Vec::new();
    assert(json::member_views(members@) =~= Seq::empty());
    let mut out = json::object(members);
    let mut i: usize = 0;
    assert(all.take(0) =~= Seq::empty());
    while i < headers.len()
        invariant
            i <= headers@.len(),
            all == data::views(headers@),
            out@ == JsonView::Object(recorded(all.take(i as int))),
        decreases headers@.len() - i,
    {
        let header = &headers[i];
        i += 1;
        assert(all.take(i as int).drop_last() =~= all.take(i - 1));
        assert(all.take(i as int).last() == headers@[i - 1]@);
        if !header.sensitive {
            if let Some(value) = &header.value {
                out.set(header.name.as_str(), Json::String(value.clone()));
            }
        }
    }
    assert(all.take(i as int) =~= all);
    out
}

/// No secret is recorded: a name that only secrets have stands for nothing.
pub proof fn law_secrets_are_not_recorded(headers: Seq<RequestHeaderView>, name: Seq<char>)
    requires
        forall|i: int|
            0 <= i < headers.len() && #[trigger] headers[i].name == name ==> headers[i].sensitive,
    ensures
        json::member(recorded(headers), name) is None,
    decreases headers.len(),
{
    if headers.len() > 0 {
        let shorter = headers.drop_last();
        assert forall|i: int| 0 <= i < shorter.len() && #[trigger] shorter[i].name == name implies
            shorter[i].sensitive by {
            assert(shorter[i] == headers[i]);
        }
        law_secrets_are_not_recorded(shorter, name);
        let header = headers.last();
        assert(header == headers[headers.len() - 1]);
        if let Some(value) = header.value {
            if !header.sensitive {
                json::law_set_then_get(
                    recorded(shorter),
                    header.name,
                    JsonView::String(value),
                    name,
                );
            }
        }
    }
}

/// A piece that arrives waits behind those that wait already, with the next number, its size, the time
/// since the attempt started and, where calls are recorded in detail, its bytes.
pub proof fn law_pieces_wait_in_order(recorder: RecorderView, data: Seq<u8>, now: u64)
    requires
        data.len() <= usize::MAX,
    ensures
        ({
            let after = recorder.buffered(data, now);
            let piece = after.chunks.last();
            &&& after.chunks.drop_last() == recorder.chunks
            &&& piece.seq == recorder.next_chunk
            &&& recorder.next_chunk < i64::MAX ==> after.next_chunk == recorder.next_chunk + 1
            &&& piece.byte_count == data.len()
            &&& recorder.detailed ==> piece.data == Some(data)
            &&& !recorder.detailed ==> piece.data is None
            &&& now >= recorder.started ==> piece.elapsed_ms == (now - recorder.started)
                / 1_000_000
            &&& recorder.chunks.len() == 0 ==> after.first_chunk_at == Some(now)
            &&& recorder.chunks.len() > 0 ==> after.first_chunk_at == recorder.first_chunk_at
                && after.generation == recorder.generation
            &&& recorder.chunks.len() == 0 && recorder.next_generation < u64::MAX
                ==> after.generation == recorder.next_generation + 1
            &&& after.call_id == recorder.call_id
            &&& after.started == recorder.started
            &&& after.finished == recorder.finished
            &&& after.retries == recorder.retries
            &&& bytes_of(after.chunks) == bytes_of(recorder.chunks) + data.len()
        }),
{
    let after = recorder.buffered(data, now);
    assert(after.chunks.drop_last() =~= recorder.chunks);
}

/// What waits is stored once it is thirty-two pieces, a quarter of a megabyte, or fifty milliseconds old.
pub proof fn law_waiting_pieces_are_stored_in_time(recorder: RecorderView, first: u64, now: u64)
    requires
        recorder.first_chunk_at == Some(first),
    ensures
        recorder.is_full(now) <==> (recorder.chunks.len() >= 32 || bytes_of(recorder.chunks)
            >= 262_144 || now - first >= 50_000_000),
{
}

/// Storing takes out all that waits, and nothing else is lost.
pub proof fn law_storing_takes_all_that_waits(recorder: RecorderView)
    ensures
        recorder.emptied().chunks.len() == 0,
        recorder.chunks.len() > 0 ==> recorder.waiting() == Some(recorder.chunks),
        recorder.chunks.len() == 0 ==> recorder.waiting() is None,
        recorder.chunks.len() > 0 ==> recorder.emptied().first_chunk_at is None,
        recorder.emptied().next_chunk == recorder.next_chunk,
        recorder.emptied().generation == recorder.generation,
        recorder.emptied().call_id == recorder.call_id,
        recorder.emptied().finished == recorder.finished,
{
}

/// A new attempt begins with nothing recorded, under its own name and from its own start; what counts the
/// attempts goes on.
pub proof fn law_new_attempt_begins_anew(recorder: RecorderView, call_id: Seq<char>, now: u64)
    ensures
        ({
            let after = recorder.restarted(call_id, now);
            &&& after.call_id == call_id
            &&& after.started == now
            &&& after.chunks.len() == 0
            &&& after.next_chunk == 0
            &&& !after.finished
            &&& !after.first_text_recorded
            &&& !after.first_valid_response_recorded
            &&& after.base_call_id == recorder.base_call_id
            &&& after.retries == recorder.retries
            &&& after.detailed == recorder.detailed
            &&& after.next_generation == recorder.next_generation
        }),
{
}

/// Reasons to stop are filed under names of their own.
pub proof fn law_reasons_are_told_apart(a: FinishReason, b: FinishReason)
    ensures
        reason_name(a) == reason_name(b) <==> a == b,
        reason_name(FinishReason::Stop) == "stop"@,
        reason_name(FinishReason::Length) == "length"@,
        reason_name(FinishReason::ToolUse) == "tool_use"@,
{
    reveal_strlit("stop");
    reveal_strlit("length");
    reveal_strlit("tool_use");
    assert("stop"@.len() == 4 && "length"@.len() == 6 && "tool_use"@.len() == 8);
}

} // verus!
