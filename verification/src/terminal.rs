//! The terminal: frames from a user program arrive COBS-encoded and tagged with the
//! stream they belong to.
use vstd::prelude::*;
use corncobs::CobsError;

verus! {

/// The bytes a COBS frame decodes to, up to its terminating zero; `None` where the input
/// ends before the frame does.
pub uninterp spec fn cobs_decoded(input: Seq<u8>) -> Option<Seq<u8>>;

/// Why a COBS frame could not be decoded.
#[derive(Copy, Clone, Debug, PartialEq, Eq, Structural)]
pub enum FrameError {
    Truncated,
    Corrupt,
}

/// Calls `corncobs::decode_buf`. The contract claims that the decoder writes no more
/// bytes than it reads, so an output as long as the input is enough (its source copies
/// each run's bytes and replaces run headers by zeros); that whether it succeeds and what
/// it decodes are functions of the input, named `cobs_decoded`; that on success the
/// output starts with the decoded frame and is left alone after it; and that the only
/// failure it reports is a truncated input (its source returns no other). Nothing is
/// claimed of the output after a failure.
#[verifier::external_body]
fn cobs_decode(input: &[u8], output: &mut [u8]) -> (r: Result<usize, FrameError>)
    requires
        old(output)@.len() >= input@.len(),
    ensures
        final(output)@.len() == old(output)@.len(),
        r is Ok <==> cobs_decoded(input@) is Some,
        r matches Ok(n) ==> n <= input@.len() && final(output)@.take(n as int) == cobs_decoded(
            input@,
        )->0 && final(output)@.skip(n as int) == old(output)@.skip(n as int),
        r matches Err(e) ==> e == FrameError::Truncated,
{
    match corncobs::decode_buf(input, output) {
        Ok(n) => Ok(n),
        Err(CobsError::Truncated) => Err(FrameError::Truncated),
        Err(CobsError::Corrupt) => Err(FrameError::Corrupt),
    }
}

/// Where the terminal writes a frame.
#[derive(Copy, Clone, Debug, PartialEq, Eq, Structural)]
pub enum Stream {
    Stdout,
    Stderr,
}

/// What the terminal does with the bytes received so far.
#[derive(Copy, Clone, Debug, PartialEq, Eq, Structural)]
pub enum TerminalEvent {
    /// Write bytes `start..end` of the decode buffer to a stream.
    Write(Stream, usize, usize),
    /// The frame is not complete yet.
    NeedMore,
    /// The frame cannot be decoded.
    Corrupt,
}

/// Where a decoded frame goes, judged by the first four bytes of the decode buffer:
/// "sout" to standard output without the tag, "serr" to standard error without the tag,
/// anything else whole to standard output.
pub open spec fn route_spec(buffer: Seq<u8>, len: int) -> TerminalEvent {
    if buffer.take(4) == seq![0x73u8, 0x6Fu8, 0x75u8, 0x74u8] {
        TerminalEvent::Write(Stream::Stdout, 4, len as usize)
    } else if buffer.take(4) == seq![0x73u8, 0x65u8, 0x72u8, 0x72u8] {
        TerminalEvent::Write(Stream::Stderr, 4, len as usize)
    } else {
        TerminalEvent::Write(Stream::Stdout, 0, len as usize)
    }
}

/// The tag of the frame in `buffer` asks to drop four bytes from it.
pub open spec fn tagged(buffer: Seq<u8>) -> bool {
    buffer.take(4) == seq![0x73u8, 0x6Fu8, 0x75u8, 0x74u8] || buffer.take(4) == seq![
        0x73u8,
        0x65u8,
        0x72u8,
        0x72u8,
    ]
}

/// Routes a decoded frame of `len` bytes at the start of `buffer`. `None` for a tagged
/// frame shorter than its tag, which has no bytes after it to write.
pub fn route_frame(buffer: &[u8], len: usize) -> (event: Option<TerminalEvent>)
    requires
        buffer@.len() >= 4,
        len <= buffer@.len(),
    ensures
        event is None <==> (tagged(buffer@) && len < 4),
        event matches Some(e) ==> e == route_spec(buffer@, len as int),
{
    let sout = buffer[0] == 0x73 && buffer[1] == 0x6F && buffer[2] == 0x75 && buffer[3] == 0x74;
    let serr = buffer[0] == 0x73 && buffer[1] == 0x65 && buffer[2] == 0x72 && buffer[3] == 0x72;
    proof {
        assert(sout <==> buffer@.take(4) == seq![0x73u8, 0x6Fu8, 0x75u8, 0x74u8]) by {
            if sout {
                assert(buffer@.take(4) =~= seq![0x73u8, 0x6Fu8, 0x75u8, 0x74u8]);
            }
        }
        assert(serr <==> buffer@.take(4) == seq![0x73u8, 0x65u8, 0x72u8, 0x72u8]) by {
            if serr {
                assert(buffer@.take(4) =~= seq![0x73u8, 0x65u8, 0x72u8, 0x72u8]);
            }
        }
    }
    if sout {
        if len < 4 {
            return None;
        }
        Some(TerminalEvent::Write(Stream::Stdout, 4, len))
    } else if serr {
        if len < 4 {
            return None;
        }
        Some(TerminalEvent::Write(Stream::Stderr, 4, len))
    } else {
        Some(TerminalEvent::Write(Stream::Stdout, 0, len))
    }
}

/// Decodes the bytes received so far into the decode buffer and says what to do: a
/// truncated frame waits for more, a whole one is routed by the tag at the start of the
/// buffer. (The decoder reports no corrupt frames, though the terminal would stop on
/// one.) `None` where a tagged frame is shorter
/// than its tag.
pub fn decode_terminal_frame(received: &[u8], buffer: &mut [u8]) -> (event: Option<TerminalEvent>)
    requires
        old(buffer)@.len() >= 4,
        old(buffer)@.len() >= received@.len(),
    ensures
        final(buffer)@.len() == old(buffer)@.len(),
        cobs_decoded(received@) is None ==> event == Some(TerminalEvent::NeedMore),
        cobs_decoded(received@) matches Some(frame) ==> {
            let n = frame.len();
            &&& n <= received@.len()
            &&& final(buffer)@ == frame + old(buffer)@.skip(n as int)
            &&& event is None <==> (tagged(final(buffer)@) && n < 4)
            &&& event matches Some(e) ==> e == route_spec(final(buffer)@, n as int)
        },
{
    match cobs_decode(received, buffer) {
        Ok(n) => {
            proof {
                assert(buffer@ =~= buffer@.take(n as int) + buffer@.skip(n as int));
            }
            route_frame(buffer, n)
        },
        Err(FrameError::Truncated) => Some(TerminalEvent::NeedMore),
        Err(FrameError::Corrupt) => Some(TerminalEvent::Corrupt),
    }
}

/// What a handler of user packets implements.
pub trait PacketHandler {
    fn handle(id: &u8, data: &[u8]);
}

/// What a plugin that polls the serial connection implements.
pub trait SerialPlugin {
    fn tick_serial(&self);
}

} // verus!
