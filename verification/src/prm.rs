//! The serial link to the control plane: how text and commands go over it.

use vstd::prelude::*;
use vstd::string::StringSliceAdditionalSpecFns;
use crate::control_plane::CP_PROTOCOL_BEGIN;
use crate::cp_request::{CPCommand, CPResponse, CP_RESPONSE_SIZE};

verus! {

/// What goes on the wire for one byte of text: a delete becomes
/// backspace, space, backspace; a line feed gets a carriage return in front.
pub open spec fn wire_byte(c: u8) -> Seq<u8> {
    if c == 127 {
        seq![8u8, 32u8, 8u8]
    } else if c == 10 {
        seq![13u8, 10u8]
    } else {
        seq![c]
    }
}

/// What goes on the wire for a text.
pub open spec fn wire_text(text: Seq<u8>) -> Seq<u8>
    decreases text.len(),
{
    if text.len() == 0 {
        Seq::empty()
    } else {
        wire_text(text.drop_last()) + wire_byte(text.last())
    }
}

/// The wire form of two texts in a row is the two wire forms in a row.
pub proof fn law_wire_text_concat(a: Seq<u8>, b: Seq<u8>)
    ensures
        wire_text(a + b) == wire_text(a) + wire_text(b),
    decreases b.len(),
{
    if b.len() == 0 {
        assert(a + b =~= a);
        assert(wire_text(a) + wire_text(b) =~= wire_text(a));
    } else {
        law_wire_text_concat(a, b.drop_last());
        assert((a + b).drop_last() =~= a + b.drop_last());
        assert((a + b).last() == b.last());
        assert(wire_text(a + b) =~= wire_text(a) + wire_text(b));
    }
}

/// The sending side of the serial link: the bytes that are due on the wire.
pub struct PRMSerial {
    pending: Vec<u8>,
}

impl PRMSerial {
    /// The bytes that were written and not yet taken, the oldest first.
    pub closed spec fn pending(&self) -> Seq<u8> {
        self.pending@
    }

    pub fn new() -> (serial: Self)
        ensures
            serial.pending() == Seq::<u8>::empty(),
    {
        PRMSerial { pending: Vec::new() }
    }

    /// Queues one raw byte.
    pub fn putbyte(&mut self, c: u8)
        ensures
            final(self).pending() == old(self).pending().push(c),
    {
        self.pending.push(c);
    }

    /// Queues the wire form of `s`.
    pub fn write_str(&mut self, s: &str)
        ensures
            final(self).pending() == old(self).pending() + wire_text(s.spec_bytes()),
    {
        let bytes = s.as_bytes();
        let mut i: usize = 0;
        while i < bytes.len()
            invariant
                i <= bytes@.len(),
                self.pending() == old(self).pending() + wire_text(bytes@.take(i as int)),
            decreases bytes.len() - i,
        {
            let c = bytes[i];
            assert(bytes@.take(i as int + 1).drop_last() == bytes@.take(i as int));
            if c == 127 {
                self.pending.push(8);
                self.pending.push(32);
                self.pending.push(8);
            } else if c == 10 {
                self.pending.push(13);
                self.pending.push(10);
            } else {
                self.pending.push(c);
            }
            assert(self.pending() =~= old(self).pending() + wire_text(bytes@.take(i as int + 1)));
            i += 1;
        }
        assert(bytes@.take(bytes@.len() as int) == bytes@);
    }

    /// Takes the queued bytes out, to be put on the wire in their order.
    pub fn take(&mut self) -> (bytes: Vec<u8>)
        ensures
            bytes@ == old(self).pending(),
            final(self).pending() == Seq::<u8>::empty(),
    {
        let mut bytes: Vec<u8> = Vec::new();
        core::mem::swap(&mut bytes, &mut self.pending);
        bytes
    }
}

/// Queues the wire form of `text` on `serial`.
pub fn putfmt(serial: &mut PRMSerial, text: &str)
    ensures
        final(serial).pending() == old(serial).pending() + wire_text(text.spec_bytes()),
{
    serial.write_str(text);
}

/// The byte that a word read from the link carries: its low eight bits.
pub fn prm_getbyte(word: usize) -> (byte: u8)
    ensures
        byte == word % 256,
{
    assert(word & 0xff == word % 256) by (bit_vector);
    (word & 0xff) as u8
}

/// A command as it goes on the wire: the opening bytes, then its raw form.
pub open spec fn spec_command_frame(cmd: CPCommand) -> Seq<u8> {
    CP_PROTOCOL_BEGIN@ + cmd.spec_as_raw()
}

/// A command as it goes on the wire.
pub fn command_frame(cmd: &CPCommand) -> (frame: Vec<u8>)
    ensures
        frame@ == spec_command_frame(*cmd),
{
    let raw = cmd.as_raw();
    let mut frame: Vec<u8> = Vec::new();
    frame.push(CP_PROTOCOL_BEGIN[0]);
    frame.push(CP_PROTOCOL_BEGIN[1]);
    let mut i: usize = 0;
    while i < raw.len()
        invariant
            i <= raw@.len(),
            raw@ == cmd.spec_as_raw(),
            frame@ == CP_PROTOCOL_BEGIN@ + raw@.take(i as int),
        decreases raw.len() - i,
    {
        frame.push(raw[i]);
        assert(frame@ =~= CP_PROTOCOL_BEGIN@ + raw@.take(i as int + 1));
        i += 1;
    }
    assert(raw@.take(raw@.len() as int) == raw@);
    frame
}

/// Sends `cmd` to the control plane and reads its response: hands the
/// command's frame to `exchange`, which puts it on the wire and gets the
/// bytes of the response, and decodes those.
pub fn prm_send_command<F: FnOnce(Vec<u8>) -> [u8; CP_RESPONSE_SIZE]>(
    cmd: CPCommand,
    exchange: F,
) -> (response: CPResponse)
    requires
        forall|frame: Vec<u8>| frame@ == spec_command_frame(cmd) ==> call_requires(exchange, (frame,)),
    ensures
        exists|frame: Vec<u8>, raw: [u8; CP_RESPONSE_SIZE]|
            frame@ == spec_command_frame(cmd) && call_ensures(exchange, (frame,), raw) && response
                == CPResponse::spec_from_raw(raw@),
{
    let frame = command_frame(&cmd);
    let raw = exchange(frame);
    CPResponse::from_raw(raw.as_slice())
}

} // verus!
