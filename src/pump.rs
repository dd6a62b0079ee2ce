use vstd::prelude::*;
use vstd::utf8::{decode_utf8, valid_utf8};

use crate::session::{OpError, SessionRegistry};

verus! {

/// Size of the buffer the output pump reads into: large enough that a read
/// rarely splits a multi-byte character or an escape sequence.
pub const OUTPUT_BUFFER_SIZE: usize = 16384;

/// Text produced by a session's child, as delivered to listeners.
#[derive(Debug, PartialEq)]
pub struct PtyOutput {
    pub session_id: String,
    pub data: String,
}

/// The end of a session's child, as delivered to listeners. `code` is absent
/// when waiting for the child failed.
#[derive(Debug, PartialEq)]
pub struct PtyExit {
    pub session_id: String,
    pub code: Option<i32>,
}

/// What the output pump does with the outcome of one read.
#[derive(Debug, PartialEq)]
pub enum PumpAction {
    /// Deliver this event and keep reading.
    Emit(PtyOutput),
    /// The session is no longer the live one under its identifier: deliver
    /// nothing and keep reading until the stream ends.
    Discard,
    /// End of stream or read error: the pump finishes.
    Stop,
}

/// The text that lossy UTF-8 decoding makes of a byte sequence.
pub uninterp spec fn lossy_utf8(b: Seq<u8>) -> Seq<char>;

/// Relies on `String::from_utf8_lossy`: the text decoded from `b`, with each
/// invalid sequence replaced; bytes that are valid UTF-8 decode exactly.
#[verifier::external_body]
fn decode_lossy(b: &[u8]) -> (r: String)
    ensures
        r@ == lossy_utf8(b@),
        valid_utf8(b@) ==> r@ == decode_utf8(b@),
{
    String::from_utf8_lossy(b).into_owned()
}

/// The output event for text read from session `id`.
pub fn output_event(id: &String, text: String) -> (e: PtyOutput)
    ensures
        e.session_id@ == id@,
        e.data@ == text@,
{
    PtyOutput { session_id: id.clone(), data: text }
}

/// The exit event of session `id`, from the outcome of waiting for its
/// child: the exit status, or `None` when the wait itself failed.
pub fn exit_event(id: &String, status: Option<u32>) -> (e: PtyExit)
    ensures
        e.session_id@ == id@,
        e.code == match status {
            Some(c) => Some(c as i32),
            None => None::<i32>,
        },
{
    let code = match status {
        Some(c) => Some(c as i32),
        None => None,
    };
    PtyExit { session_id: id.clone(), code }
}

/// The result of a write or a resize on a live session: the terminal's
/// error, if any, becomes `IoFailure` with the same message.
pub fn io_outcome(r: Result<(), String>) -> (o: Result<(), OpError>)
    ensures
        o is Ok <==> r is Ok,
        r matches Err(m) ==> (o matches Err(OpError::IoFailure(n)) && n@ == m@),
{
    match r {
        Ok(()) => Ok(()),
        Err(m) => Err(OpError::IoFailure(m)),
    }
}

impl<H> SessionRegistry<H> {
    /// Decides what the output pump of `(id, token)` does after a read.
    /// A read error or an empty read stops it; otherwise the bytes are
    /// decoded and delivered if the session is still the live one under
    /// `id`, and dropped if it was closed or replaced.
    pub fn pump_step(&self, id: &String, token: u64, chunk: Option<&[u8]>) -> (a: PumpAction)
        requires
            self.wf(),
        ensures
            match chunk {
                None => a is Stop,
                Some(b) => if b@.len() == 0 {
                    a is Stop
                } else if self.is_current_spec(id@, token) {
                    a matches PumpAction::Emit(e) && e.session_id@ == id@ && e.data@ == lossy_utf8(
                        b@,
                    )
                } else {
                    a is Discard
                },
            },
    {
        match chunk {
            None => PumpAction::Stop,
            Some(b) => {
                if b.len() == 0 {
                    PumpAction::Stop
                } else if self.is_current(id, token) {
                    PumpAction::Emit(output_event(id, decode_lossy(b)))
                } else {
                    PumpAction::Discard
                }
            },
        }
    }
}

} // verus!
