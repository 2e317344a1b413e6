//! The requests and responses of the control plane, and their form on the wire.

use vstd::prelude::*;

verus! {

/// Bytes of a command on the wire.
pub const CP_COMMAND_SIZE: usize = 12;

/// Bytes of a response on the wire.
pub const CP_RESPONSE_SIZE: usize = 8;

/// A request to read or write one cell of a control-plane table.
#[derive(Clone, Copy, Debug, PartialEq, Eq, Structural)]
pub struct CPCommand {
    pub val: u32,
    pub rw: u8,
    pub cp: u8,
    pub tab: u8,
    pub col: u8,
    pub row: u8,
    pub end: u8,
}

/// The control plane's answer to a command.
#[derive(Clone, Copy, Debug, PartialEq, Eq, Structural)]
pub struct CPResponse {
    pub val: u32,
    pub valid: u8,
}

/// The four bytes of `val`, the most significant first.
pub open spec fn be_bytes(val: u32) -> Seq<u8> {
    seq![
        (val / 0x100_0000) as u8,
        (val / 0x1_0000 % 0x100) as u8,
        (val / 0x100 % 0x100) as u8,
        (val % 0x100) as u8,
    ]
}

/// The number whose four bytes, the most significant first, are `b0` to `b3`.
pub open spec fn be_value(b0: u8, b1: u8, b2: u8, b3: u8) -> u32 {
    (b0 * 0x100_0000 + b1 * 0x1_0000 + b2 * 0x100 + b3) as u32
}

/// Reading back the bytes of a number gives the number.
pub proof fn lemma_be_round_trip(val: u32)
    ensures
        be_value(be_bytes(val)[0], be_bytes(val)[1], be_bytes(val)[2], be_bytes(val)[3]) == val,
{
}

/// Writing out the number read from four bytes gives the bytes.
proof fn lemma_be_bytes_of_value(b0: u8, b1: u8, b2: u8, b3: u8)
    ensures
        be_bytes(be_value(b0, b1, b2, b3)) == seq![b0, b1, b2, b3],
{
    let val = be_value(b0, b1, b2, b3);
    let w0 = b0 as u32;
    let w1 = b1 as u32;
    let w2 = b2 as u32;
    let w3 = b3 as u32;
    assert(val == w0 * 0x100_0000 + w1 * 0x1_0000 + w2 * 0x100 + w3);
    assert(val / 0x100_0000 == w0 && val / 0x1_0000 % 0x100 == w1 && val / 0x100 % 0x100 == w2 && val
        % 0x100 == w3) by (bit_vector)
        requires
            val == w0 * 0x100_0000 + w1 * 0x1_0000 + w2 * 0x100 + w3,
            w0 < 0x100,
            w1 < 0x100,
            w2 < 0x100,
            w3 < 0x100,
    ;
    assert(be_bytes(val) =~= seq![b0, b1, b2, b3]);
}

/// The bytes of `val`, the most significant first.
fn be_bytes_of(val: u32) -> (r: [u8; 4])
    ensures
        r@ == be_bytes(val),
{
    let b0 = (val >> 24) as u8;
    let b1 = ((val >> 16) & 0xff) as u8;
    let b2 = ((val >> 8) & 0xff) as u8;
    let b3 = (val & 0xff) as u8;
    assert(val >> 24 == val / 0x100_0000) by (bit_vector);
    assert((val >> 16) & 0xff == val / 0x1_0000 % 0x100) by (bit_vector);
    assert((val >> 8) & 0xff == val / 0x100 % 0x100) by (bit_vector);
    assert(val & 0xff == val % 0x100) by (bit_vector);
    let r = [b0, b1, b2, b3];
    assert(r@ =~= be_bytes(val));
    r
}

/// The number whose bytes, the most significant first, are `b0` to `b3`.
fn be_value_of(b0: u8, b1: u8, b2: u8, b3: u8) -> (r: u32)
    ensures
        r == be_value(b0, b1, b2, b3),
{
    let w0 = b0 as u32;
    let w1 = b1 as u32;
    let w2 = b2 as u32;
    let w3 = b3 as u32;
    assert((w0 << 24) | (w1 << 16) | (w2 << 8) | w3 == w0 * 0x100_0000 + w1 * 0x1_0000 + w2 * 0x100
        + w3) by (bit_vector)
        requires
            w0 < 0x100,
            w1 < 0x100,
            w2 < 0x100,
            w3 < 0x100,
    ;
    (w0 << 24) | (w1 << 16) | (w2 << 8) | w3
}

impl CPCommand {
    /// The command on the wire: the value, the most significant byte first,
    /// the six one-byte fields, and two bytes of padding.
    pub open spec fn spec_as_raw(&self) -> Seq<u8> {
        be_bytes(self.val) + seq![self.rw, self.cp, self.tab, self.col, self.row, self.end, 0u8, 0u8]
    }

    pub fn as_raw(&self) -> (bytes: [u8; CP_COMMAND_SIZE])
        ensures
            bytes@ == self.spec_as_raw(),
    {
        let val = be_bytes_of(self.val);
        let bytes = [
            val[0],
            val[1],
            val[2],
            val[3],
            self.rw,
            self.cp,
            self.tab,
            self.col,
            self.row,
            self.end,
            0,
            0,
        ];
        assert(bytes@ =~= self.spec_as_raw());
        bytes
    }
}

impl CPResponse {
    /// The response on the wire: the value, the most significant byte first,
    /// the validity byte, and three bytes of padding.
    pub open spec fn spec_as_raw(&self) -> Seq<u8> {
        be_bytes(self.val) + seq![self.valid, 0u8, 0u8, 0u8]
    }

    /// The response that the first five bytes of `raw` carry.
    pub open spec fn spec_from_raw(raw: Seq<u8>) -> CPResponse {
        CPResponse { val: be_value(raw[0], raw[1], raw[2], raw[3]), valid: raw[4] }
    }

    pub fn as_raw(&self) -> (bytes: [u8; CP_RESPONSE_SIZE])
        ensures
            bytes@ == self.spec_as_raw(),
    {
        let val = be_bytes_of(self.val);
        let bytes = [val[0], val[1], val[2], val[3], self.valid, 0, 0, 0];
        assert(bytes@ =~= self.spec_as_raw());
        bytes
    }

    pub fn from_raw(raw: &[u8]) -> (response: CPResponse)
        requires
            raw@.len() >= 5,
        ensures
            response == Self::spec_from_raw(raw@),
    {
        CPResponse { val: be_value_of(raw[0], raw[1], raw[2], raw[3]), valid: raw[4] }
    }
}

/// A response that is written out and read back is the same response.
pub proof fn law_response_round_trip(response: CPResponse)
    ensures
        CPResponse::spec_from_raw(response.spec_as_raw()) == response,
        response.spec_as_raw().len() == CP_RESPONSE_SIZE,
{
    lemma_be_round_trip(response.val);
}

/// The bytes of a response on the wire, read and written out again, are the
/// same bytes, as far as they are not padding.
pub proof fn law_raw_round_trip(raw: Seq<u8>)
    requires
        raw.len() == CP_RESPONSE_SIZE,
    ensures
        CPResponse::spec_from_raw(raw).spec_as_raw().subrange(0, 5) == raw.subrange(0, 5),
{
    lemma_be_bytes_of_value(raw[0], raw[1], raw[2], raw[3]);
    let again = CPResponse::spec_from_raw(raw).spec_as_raw();
    assert(be_bytes(CPResponse::spec_from_raw(raw).val) == seq![raw[0], raw[1], raw[2], raw[3]]);
    assert(again.subrange(0, 5) =~= raw.subrange(0, 5));
}

/// A command on the wire has the fixed size.
pub proof fn law_command_size(command: CPCommand)
    ensures
        command.spec_as_raw().len() == CP_COMMAND_SIZE,
{
}

} // verus!
