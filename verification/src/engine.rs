//! The tail-and-transcode engine: the cursor-owning state machine of the
//! session. Each cycle first reconciles the cursor with the input's current
//! size (truncation recovery), then reacts to what a read from the cursor
//! produced: new bytes are decoded and turned into an append command, end of
//! data means sleep, and a read fault means retry without any state change.
//!
//! The engine owns no file handles. The caller observes the input (its size,
//! the bytes from the cursor to the end) and performs the actions the engine
//! returns, in order: for an append command, first write the text to the
//! output, then persist the new cursor — that order is what makes a restart
//! resume without losing data.

use vstd::prelude::*;

use crate::encoding::{decoded_utf8, Decoder};

verus! {

/// Cursor adjustment at the start of a poll cycle: an input that is now
/// smaller than the cursor was truncated, and reading restarts from the
/// beginning of the file.
pub open spec fn polled_cursor(size: u64, cursor: u64) -> u64 {
    if size < cursor {
        0
    } else {
        cursor
    }
}

/// The bytes one cycle reads: everything from the (truncation-adjusted)
/// cursor to the current end of the input.
pub open spec fn available_bytes(input: Seq<u8>, cursor: u64) -> Seq<u8> {
    input.subrange(polled_cursor(input.len() as u64, cursor) as int, input.len() as int)
}

/// What one read from the cursor produced, as the caller observed it.
pub enum ReadOutcome {
    /// New bytes, from the cursor to the input's current end.
    Data(Vec<u8>),
    /// No new bytes: the input has not grown.
    EndOfData,
    /// An input fault distinct from "no new bytes".
    Failed,
}

/// One append of decoded text, and the cursor value to persist strictly
/// after the text has been written.
pub struct AppendCommand {
    pub text: Vec<u8>,
    pub new_cursor: u64,
}

/// What the caller must do next.
pub enum Action {
    /// Write `text` to the output, then persist `new_cursor`.
    Append(AppendCommand),
    /// No new bytes: sleep for the poll interval and poll again.
    Sleep,
    /// A read fault: change nothing and retry from the same cursor.
    Retry,
}

/// The engine: the resolved decode capability and the cursor, the count of
/// input bytes already transcoded.
pub struct Engine {
    decoder: Decoder,
    cursor: u64,
}

impl Engine {
    pub closed spec fn cursor(self) -> u64 {
        self.cursor
    }

    pub closed spec fn label(self) -> Seq<char> {
        self.decoder.label()
    }

    pub closed spec fn wf(self) -> bool {
        self.decoder.wf()
    }

    /// A session's engine starts at the cursor the position record resolved
    /// to, with the decode capability the resolver produced.
    pub fn new(decoder: Decoder, start: u64) -> (r: Engine)
        requires
            decoder.wf(),
        ensures
            r.wf(),
            r.cursor() == start,
            r.label() == decoder.label(),
    {
        Engine { decoder, cursor: start }
    }

    /// The cursor, for the caller to seek the input stream to.
    pub fn position(&self) -> (r: u64)
        ensures
            r == self.cursor(),
    {
        self.cursor
    }

    /// The truncation check that opens every cycle: if the input is now
    /// smaller than the cursor, the cursor resets to the start of the file
    /// and the caller must re-seek; otherwise nothing changes. The returned
    /// cursor never points past the current end of the input.
    pub fn on_poll(&mut self, current_size: u64) -> (reset: bool)
        ensures
            reset == (current_size < old(self).cursor()),
            final(self).cursor() == polled_cursor(current_size, old(self).cursor()),
            final(self).cursor() <= current_size,
            final(self).label() == old(self).label(),
            final(self).wf() == old(self).wf(),
            !reset ==> *final(self) == *old(self),
    {
        if current_size < self.cursor {
            self.cursor = 0;
            true
        } else {
            false
        }
    }

    /// The reaction to one read: new bytes become an append command carrying
    /// their decoded text and the advanced cursor; end of data means sleep
    /// with nothing changed; a read fault means retry with nothing changed,
    /// so the next cycle reads again from the same cursor.
    pub fn on_read(&mut self, outcome: ReadOutcome) -> (act: Action)
        requires
            old(self).wf(),
            outcome matches ReadOutcome::Data(b) ==> old(self).cursor() + b@.len() <= u64::MAX
                && b@.len() <= usize::MAX / 4,
        ensures
            final(self).wf(),
            final(self).label() == old(self).label(),
            outcome is EndOfData ==> act is Sleep && *final(self) == *old(self),
            outcome is Failed ==> act is Retry && *final(self) == *old(self),
            outcome matches ReadOutcome::Data(b) ==> act matches Action::Append(cmd)
                && cmd.text@ == decoded_utf8(old(self).label(), b@)
                && cmd.new_cursor == old(self).cursor() + b@.len()
                && final(self).cursor() == cmd.new_cursor,
    {
        match outcome {
            ReadOutcome::Data(b) => {
                let text = self.decoder.decode(b.as_slice());
                let new_cursor = self.cursor + b.len() as u64;
                self.cursor = new_cursor;
                Action::Append(AppendCommand { text, new_cursor })
            },
            ReadOutcome::EndOfData => Action::Sleep,
            ReadOutcome::Failed => Action::Retry,
        }
    }
}

// ------------------------------------------------------------------------
// The session model: what a sequence of successful draining steps does to
// the cursor, the persisted offset, and the output, stated over the same
// spec functions the engine's contracts use.
// ------------------------------------------------------------------------

/// One session's visible state: the cursor, the offset last persisted, and
/// the bytes this session has appended to the output.
pub struct SessionModel {
    pub cursor: nat,
    pub persisted: nat,
    pub output: Seq<u8>,
}

/// One successful draining step on a span of newly read bytes: the decoded
/// text is appended first, and only then is the advanced cursor persisted.
pub open spec fn drain_step(label: Seq<char>, m: SessionModel, chunk: Seq<u8>) -> SessionModel {
    SessionModel {
        cursor: m.cursor + chunk.len(),
        persisted: m.cursor + chunk.len(),
        output: m.output + decoded_utf8(label, chunk),
    }
}

/// A whole run: the draining steps for each read span, in order.
pub open spec fn run_session(label: Seq<char>, m: SessionModel, chunks: Seq<Seq<u8>>) -> SessionModel
    decreases chunks.len(),
{
    if chunks.len() == 0 {
        m
    } else {
        run_session(label, drain_step(label, m, chunks.first()), chunks.drop_first())
    }
}

/// The total number of input bytes a run consumed.
pub open spec fn total_len(chunks: Seq<Seq<u8>>) -> nat
    decreases chunks.len(),
{
    if chunks.len() == 0 {
        0
    } else {
        chunks.first().len() + total_len(chunks.drop_first())
    }
}

/// The decoded text of a run's spans, in reading order.
pub open spec fn decoded_chunks(label: Seq<char>, chunks: Seq<Seq<u8>>) -> Seq<u8>
    decreases chunks.len(),
{
    if chunks.len() == 0 {
        Seq::empty()
    } else {
        decoded_utf8(label, chunks.first()) + decoded_chunks(label, chunks.drop_first())
    }
}

/// Offset/output consistency: after any run of successful draining steps the
/// persisted offset equals the cursor, the cursor has advanced by exactly
/// the input bytes consumed, and the output holds exactly the decoded text
/// of those bytes, in order — the persisted offset is never ahead of the
/// output.
pub proof fn lemma_offset_output_consistency(
    label: Seq<char>,
    m: SessionModel,
    chunks: Seq<Seq<u8>>,
)
    requires
        m.persisted == m.cursor,
    ensures
        run_session(label, m, chunks).persisted == run_session(label, m, chunks).cursor,
        run_session(label, m, chunks).cursor == m.cursor + total_len(chunks),
        run_session(label, m, chunks).output == m.output + decoded_chunks(label, chunks),
    decreases chunks.len(),
{
    if chunks.len() == 0 {
        assert(run_session(label, m, chunks).output =~= m.output + decoded_chunks(label, chunks));
    } else {
        let m1 = drain_step(label, m, chunks.first());
        lemma_offset_output_consistency(label, m1, chunks.drop_first());
        assert(m1.output + decoded_chunks(label, chunks.drop_first()) =~= m.output
            + decoded_chunks(label, chunks));
    }
}

/// Resumability: a run that consumed the first `first.len()` bytes leaves
/// the cursor at exactly that count, so after the input grows by `more`, the
/// next cycle reads exactly `more` — the restarted session appends the
/// decoded text of the new bytes alone, and the decoded text of the old
/// bytes does not reappear.
pub proof fn lemma_resumability(label: Seq<char>, first: Seq<u8>, more: Seq<u8>)
    requires
        first.len() + more.len() <= u64::MAX,
    ensures
        available_bytes(first, 0) == first,
        available_bytes(first + more, first.len() as u64) == more,
        decoded_utf8(label, available_bytes(first + more, first.len() as u64)) == decoded_utf8(
            label,
            more,
        ),
{
    assert(available_bytes(first, 0) =~= first);
    assert(available_bytes(first + more, first.len() as u64) =~= more);
}

/// Truncation recovery: whenever the input has shrunk below the cursor, the
/// cycle's cursor is reset to the start of the file and the next read takes
/// the whole of the now-shorter input from byte 0; in every case the cycle's
/// cursor stays within the input, so a seek to it is never out of range.
pub proof fn lemma_truncation_recovery(input: Seq<u8>, cursor: u64)
    requires
        input.len() <= u64::MAX,
    ensures
        input.len() < cursor ==> polled_cursor(input.len() as u64, cursor) == 0,
        input.len() < cursor ==> available_bytes(input, cursor) == input,
        polled_cursor(input.len() as u64, cursor) <= input.len(),
        cursor <= input.len() ==> polled_cursor(input.len() as u64, cursor) == cursor,
{
    if input.len() < cursor {
        assert(available_bytes(input, cursor) =~= input);
    }
}

} // verus!
