//! The player's side of the helper's PCM stream: bytes are cut into whole
//! frames as they arrive, and each non-blocking playback read decides from
//! what the stream did whether to hand out audio, report an underrun, end,
//! or fail (keeping a failure for the next read when audio was already
//! handed out).

use vstd::prelude::*;

use crate::about::{append_signed, signed_decimal};
use crate::fmt::{decimal, decimal_chars};
use crate::pcm::DecodeError;
use crate::helper::PlaybackRead;
use crate::text::{append_chars, append_str, string_from_str};

verus! {

/// Collects the helper's PCM bytes and hands out whole frames only.
#[derive(Debug)]
pub struct FrameAssembler {
    frame_bytes: usize,
    pending: Vec<u8>,
}

impl FrameAssembler {
    /// Bytes of one frame.
    pub closed spec fn spec_frame_bytes(&self) -> nat {
        self.frame_bytes as nat
    }

    /// Bytes received but not yet handed out.
    pub closed spec fn spec_pending(&self) -> Seq<u8> {
        self.pending@
    }

    /// An assembler for frames of `frame_bytes` bytes.
    pub fn new(frame_bytes: usize) -> (a: FrameAssembler)
        requires
            frame_bytes > 0,
        ensures
            a.spec_frame_bytes() == frame_bytes,
            a.spec_pending() == Seq::<u8>::empty(),
    {
        FrameAssembler { frame_bytes, pending: Vec::new() }
    }

    /// Takes newly read bytes and returns the bytes of every frame now
    /// complete; an incomplete frame stays behind.
    pub fn push(&mut self, bytes: &[u8]) -> (complete: Vec<u8>)
        requires
            old(self).spec_frame_bytes() > 0,
        ensures
            final(self).spec_frame_bytes() == old(self).spec_frame_bytes(),
            complete@ + final(self).spec_pending() == old(self).spec_pending() + bytes@,
            complete@.len() % old(self).spec_frame_bytes() == 0,
            final(self).spec_pending().len() < old(self).spec_frame_bytes(),
    {
        let ghost before = self.pending@;
        let mut k: usize = 0;
        while k < bytes.len()
            invariant
                k <= bytes.len(),
                self.frame_bytes == old(self).frame_bytes,
                self.frame_bytes > 0,
                self.pending@ == before + bytes@.take(k as int),
            decreases bytes.len() - k,
        {
            self.pending.push(bytes[k]);
            k += 1;
            assert(self.pending@ =~= before + bytes@.take(k as int));
        }
        assert(bytes@.take(bytes.len() as int) =~= bytes@);
        let total = self.pending.len();
        let whole = total / self.frame_bytes;
        assert(whole * self.frame_bytes <= total) by (nonlinear_arith)
            requires whole == total / self.frame_bytes, self.frame_bytes > 0;
        let complete_len = whole * self.frame_bytes;
        assert(complete_len <= total && total - complete_len < self.frame_bytes && complete_len % self.frame_bytes == 0) by (nonlinear_arith)
            requires complete_len == total / self.frame_bytes * self.frame_bytes, self.frame_bytes > 0;
        let mut complete: Vec<u8> = Vec::new();
        let mut rest: Vec<u8> = Vec::new();
        let mut i: usize = 0;
        while i < total
            invariant
                i <= total,
                total == self.pending.len(),
                complete_len <= total,
                i <= complete_len ==> complete@ == self.pending@.take(i as int) && rest@.len() == 0,
                i > complete_len ==> complete@ == self.pending@.take(complete_len as int)
                    && rest@ == self.pending@.subrange(complete_len as int, i as int),
            decreases total - i,
        {
            if i < complete_len {
                complete.push(self.pending[i]);
                assert(complete@ =~= self.pending@.take(i + 1));
            } else {
                rest.push(self.pending[i]);
                assert(rest@ =~= self.pending@.subrange(complete_len as int, i + 1));
            }
            i += 1;
        }
        proof {
            if total <= complete_len {
                assert(complete@ =~= self.pending@.take(complete_len as int));
                assert(rest@ =~= self.pending@.subrange(complete_len as int, total as int));
            }
            assert(complete@ + rest@ =~= self.pending@);
        }
        self.pending = rest;
        complete
    }

    /// At the end of the stream: an incomplete frame left over is an error.
    pub fn finish(&self) -> (r: Result<(), DecodeError>)
        ensures
            r is Ok <==> self.spec_pending().len() == 0,
            r matches Err(DecodeError::Message(m)) ==> m@ == "helper returned a partial PCM frame"@,
            !(r matches Err(DecodeError::Message(_))) ==> r is Ok,
    {
        if self.pending.len() == 0 {
            Ok(())
        } else {
            Err(DecodeError::Message(string_from_str("helper returned a partial PCM frame")))
        }
    }
}

/// The failure reported for a helper that exited unsuccessfully: its exit
/// code (70 when it has none, such as after a signal) and its sanitized
/// diagnostic output.
pub fn exit_error(code: Option<i32>, diagnostic: &str) -> (r: DecodeError)
    ensures
        r matches DecodeError::Message(m) && m@ == "bundled helper exited with "@ + signed_decimal(
            match code { Some(c) => c as int, None => 70 },
        ) + ": "@ + diagnostic@,
{
    let mut text = string_from_str("bundled helper exited with ");
    append_signed(&mut text, match code {
        Some(c) => c,
        None => 70,
    });
    append_str(&mut text, ": ");
    append_str(&mut text, diagnostic);
    DecodeError::Message(text)
}

/// The failure reported when the helper's decode header was refused: the
/// protocol error, followed by the helper's diagnostic output when it wrote
/// any.
pub fn header_error_message(error: &str, diagnostic: &str) -> (r: String)
    ensures
        r@ == "bundled helper protocol error: "@ + error@ + (if diagnostic@.len() == 0 {
            Seq::<char>::empty()
        } else {
            "; "@ + diagnostic@
        }),
{
    let mut text = string_from_str("bundled helper protocol error: ");
    append_str(&mut text, error);
    if diagnostic.unicode_len() > 0 {
        append_str(&mut text, "; ");
        append_str(&mut text, diagnostic);
    }
    proof {
        if diagnostic@.len() == 0 {
            assert(text@ =~= "bundled helper protocol error: "@ + error@ + Seq::<char>::empty());
        }
    }
    text
}

/// Everything handed out plus what is pending is exactly what was received:
/// after any sequence of pushes, no byte is lost, duplicated or reordered.
pub proof fn lemma_assembler_conserves_bytes(
    pending0: Seq<u8>,
    input1: Seq<u8>,
    out1: Seq<u8>,
    pending1: Seq<u8>,
    input2: Seq<u8>,
    out2: Seq<u8>,
    pending2: Seq<u8>,
)
    requires
        out1 + pending1 == pending0 + input1,
        out2 + pending2 == pending1 + input2,
    ensures
        out1 + out2 + pending2 == pending0 + input1 + input2,
{
    assert(out1 + out2 + pending2 =~= out1 + (out2 + pending2));
    assert(pending0 + input1 + input2 =~= (pending0 + input1) + input2);
    assert(out1 + (pending1 + input2) =~= (out1 + pending1) + input2);
}

/// Bookkeeping of one helper stream as the player reads it.
#[derive(Debug)]
pub struct PlaybackState {
    pub frame_samples: usize,
    pub frame_position: u64,
    pub pending_error: Option<DecodeError>,
    pub finished: bool,
    pub underrun_count: u64,
    /// Whether the helper stream is still attached: it detaches when the
    /// helper fails, stalls or closes its output.
    pub attached: bool,
    /// Whether a read has already answered with an error.
    pub error_answered: bool,
}

/// How a read begins.
#[derive(Debug)]
pub enum ReadStart {
    /// The read fails at once.
    Fail(DecodeError),
    /// The read is answered at once.
    Done(PlaybackRead),
    /// Samples are to be copied from the stream.
    Proceed,
}

/// What the stream did when the player looked for more samples.
#[derive(Debug)]
pub enum StreamEvent {
    /// The helper reported a failure.
    Failed(DecodeError),
    /// Nothing new yet, within the stall limit.
    Idle,
    /// Nothing new for longer than the stall limit (in milliseconds).
    Stalled(u64),
    /// The stream ended; the helper's exit was clean or not.
    Closed(Result<(), DecodeError>),
}

/// What the read does after a stream event.
#[derive(Debug)]
pub enum EventOutcome {
    /// Return this from the read at once.
    Answer(Result<PlaybackRead, DecodeError>),
    /// Stop copying and finish the read with what was written.
    Stop,
}

/// What every state of a stream keeps: once detached, the stream has ended
/// cleanly, holds an error for the next read, or has answered one.
pub open spec fn settled(s: PlaybackState) -> bool {
    s.attached || s.finished || s.pending_error is Some || s.error_answered
}

/// How many buffered samples a read copies next: as many as are buffered,
/// but no more than the room left after the `written` samples already in a
/// buffer of `output_len`.
pub fn copy_count(buffered: usize, written: usize, output_len: usize) -> (r: usize)
    requires
        written <= output_len,
    ensures
        r == if buffered < output_len - written { buffered as int } else { output_len - written },
        written + r <= output_len,
{
    let room = output_len - written;
    if buffered < room { buffered } else { room }
}

/// The text of a stall error.
pub open spec fn stall_message(ms: u64) -> Seq<char> {
    "bundled helper PCM stalled for "@ + decimal(ms as nat) + " ms"@
}

impl PlaybackState {
    /// A fresh stream of `frame_samples` samples per frame starting at
    /// `frame_position`.
    pub fn new(frame_samples: usize, frame_position: u64) -> (s: PlaybackState)
        requires
            frame_samples > 0,
        ensures
            s.frame_samples == frame_samples,
            s.frame_position == frame_position,
            s.pending_error is None,
            !s.finished,
            s.underrun_count == 0,
            s.attached,
            !s.error_answered,
            settled(s),
    {
        PlaybackState {
            frame_samples,
            frame_position,
            pending_error: None,
            finished: false,
            underrun_count: 0,
            attached: true,
            error_answered: false,
        }
    }

    /// Starts a read into a buffer of `output_len` samples: a buffer that is
    /// not whole frames fails, an empty one reads nothing, a failure kept from
    /// the last read is reported now, and an ended stream reports its end.
    pub fn start_read(&mut self, output_len: usize) -> (r: ReadStart)
        requires
            old(self).frame_samples > 0,
        ensures
            final(self).frame_samples == old(self).frame_samples,
            final(self).frame_position == old(self).frame_position,
            final(self).finished == old(self).finished,
            final(self).underrun_count == old(self).underrun_count,
            final(self).attached == old(self).attached,
            final(self).error_answered == (old(self).error_answered || r is Fail),
            settled(*old(self)) ==> settled(*final(self)),
            output_len % old(self).frame_samples != 0 ==> (r matches ReadStart::Fail(DecodeError::UnalignedBuffer))
                && final(self).pending_error == old(self).pending_error,
            output_len % old(self).frame_samples == 0 && output_len == 0 ==> (r matches ReadStart::Done(PlaybackRead::Data(n)) && n == 0)
                && final(self).pending_error == old(self).pending_error,
            output_len % old(self).frame_samples == 0 && output_len > 0 && old(self).pending_error is Some ==> (r matches ReadStart::Fail(e)
                && old(self).pending_error == Some(e)) && final(self).pending_error is None,
            output_len % old(self).frame_samples == 0 && output_len > 0 && old(self).pending_error is None
                ==> final(self).pending_error is None && (if old(self).finished {
                    r matches ReadStart::Done(PlaybackRead::Eof)
                } else {
                    r is Proceed
                }),
    {
        if output_len % self.frame_samples != 0 {
            self.error_answered = true;
            return ReadStart::Fail(DecodeError::UnalignedBuffer);
        }
        if output_len == 0 {
            return ReadStart::Done(PlaybackRead::Data(0));
        }
        if let Some(error) = self.pending_error.take() {
            self.error_answered = true;
            return ReadStart::Fail(error);
        }
        if self.finished {
            return ReadStart::Done(PlaybackRead::Eof);
        }
        ReadStart::Proceed
    }

    /// Decides what a stream event means for a read that has already written
    /// `written` samples. A failure is reported at once when nothing was
    /// written, else kept for the next read; waiting with nothing written is
    /// an underrun; an ended stream is finished only when the helper exited
    /// cleanly.
    pub fn on_event(&mut self, written: usize, event: StreamEvent) -> (r: EventOutcome)
        ensures
            final(self).frame_samples == old(self).frame_samples,
            final(self).frame_position == old(self).frame_position,
            final(self).attached == (old(self).attached && event is Idle),
            final(self).error_answered == (old(self).error_answered || r matches EventOutcome::Answer(Err(_))),
            settled(*old(self)) ==> settled(*final(self)),
            match event {
                StreamEvent::Failed(e) => final(self).finished == old(self).finished
                    && final(self).underrun_count == old(self).underrun_count
                    && if written == 0 {
                        (r matches EventOutcome::Answer(Err(x)) && x == e) && final(self).pending_error == old(self).pending_error
                    } else {
                        r is Stop && final(self).pending_error == Some(e)
                    },
                StreamEvent::Stalled(ms) => final(self).finished == old(self).finished
                    && final(self).underrun_count == old(self).underrun_count
                    && if written == 0 {
                        (r matches EventOutcome::Answer(Err(DecodeError::Message(m))) && m@ == stall_message(ms))
                            && final(self).pending_error == old(self).pending_error
                    } else {
                        r is Stop && (final(self).pending_error matches Some(DecodeError::Message(m)) && m@ == stall_message(ms))
                    },
                StreamEvent::Idle => final(self).finished == old(self).finished
                    && final(self).pending_error == old(self).pending_error
                    && if written == 0 {
                        (r matches EventOutcome::Answer(Ok(PlaybackRead::Underrun)))
                            && final(self).underrun_count == (if old(self).underrun_count == u64::MAX { u64::MAX as int } else { old(self).underrun_count + 1 })
                    } else {
                        r is Stop && final(self).underrun_count == old(self).underrun_count
                    },
                StreamEvent::Closed(result) => final(self).finished == (result is Ok)
                    && final(self).underrun_count == old(self).underrun_count
                    && match result {
                        Ok(_) => r is Stop && final(self).pending_error == old(self).pending_error,
                        Err(e) => if written == 0 {
                            (r matches EventOutcome::Answer(Err(x)) && x == e) && final(self).pending_error == old(self).pending_error
                        } else {
                            r is Stop && final(self).pending_error == Some(e)
                        },
                    },
            },
    {
        match event {
            StreamEvent::Failed(error) => {
                self.attached = false;
                if written == 0 {
                    self.error_answered = true;
                    return EventOutcome::Answer(Err(error));
                }
                self.pending_error = Some(error);
                EventOutcome::Stop
            },
            StreamEvent::Stalled(ms) => {
                self.attached = false;
                let mut text = string_from_str("bundled helper PCM stalled for ");
                let digits = decimal_chars(ms);
                append_chars(&mut text, &digits);
                append_str(&mut text, " ms");
                let error = DecodeError::Message(text);
                if written == 0 {
                    self.error_answered = true;
                    return EventOutcome::Answer(Err(error));
                }
                self.pending_error = Some(error);
                EventOutcome::Stop
            },
            StreamEvent::Idle => {
                if written == 0 {
                    self.underrun_count = if self.underrun_count == u64::MAX {
                        u64::MAX
                    } else {
                        self.underrun_count + 1
                    };
                    return EventOutcome::Answer(Ok(PlaybackRead::Underrun));
                }
                EventOutcome::Stop
            },
            StreamEvent::Closed(result) => {
                self.attached = false;
                match result {
                    Ok(()) => {
                        self.finished = true;
                        EventOutcome::Stop
                    },
                    Err(error) => {
                        self.finished = false;
                        if written == 0 {
                            self.error_answered = true;
                    return EventOutcome::Answer(Err(error));
                        }
                        self.pending_error = Some(error);
                        EventOutcome::Stop
                    },
                }
            },
        }
    }

    /// Ends a read into a buffer of `output_len` samples that wrote
    /// `written` of them, whole frames, of which none only once the stream has
    /// detached with no error held: the position advances by the frames
    /// written; nothing written from an ended stream is its end. So a read
    /// answers whole frames within its buffer, and answers no samples only
    /// after an earlier read has answered an error.
    pub fn finish_read(&mut self, written: usize, output_len: usize) -> (r: PlaybackRead)
        requires
            old(self).frame_samples > 0,
            settled(*old(self)),
            written <= output_len,
            written % old(self).frame_samples == 0,
            written == 0 ==> !old(self).attached && old(self).pending_error is None,
        ensures
            final(self).frame_samples == old(self).frame_samples,
            final(self).finished == old(self).finished,
            final(self).underrun_count == old(self).underrun_count,
            final(self).pending_error == old(self).pending_error,
            final(self).attached == old(self).attached,
            final(self).error_answered == old(self).error_answered,
            settled(*final(self)),
            final(self).frame_position == (if old(self).frame_position + written / old(self).frame_samples > u64::MAX {
                u64::MAX as int
            } else {
                old(self).frame_position + written / old(self).frame_samples
            }),
            r == (if written == 0 && old(self).finished { PlaybackRead::Eof } else { PlaybackRead::Data(written) }),
            r matches PlaybackRead::Data(n) ==> n <= output_len && n % final(self).frame_samples == 0 && (n > 0
                || old(self).error_answered),
    {
        let frames: u64 = (written / self.frame_samples) as u64;
        self.frame_position = if self.frame_position > u64::MAX - frames {
            u64::MAX
        } else {
            self.frame_position + frames
        };
        if written == 0 && self.finished {
            PlaybackRead::Eof
        } else {
            PlaybackRead::Data(written)
        }
    }
}

} // verus!
