//! The record codec: one type-length-value record to and from its wire bytes.
use vstd::prelude::*;
use vstd::slice::{slice_subrange, slice_to_vec};
use vstd::utf8::{decode_utf8, valid_utf8};

use crate::cmds::Cmd;

verus! {

/// What a record holds: its two-byte code and its payload.
pub struct RecordView {
    pub code: (u8, u8),
    pub payload: Seq<u8>,
}

/// The outcome of reading one record from the front of a byte sequence.
pub enum Decoded {
    /// A record, and the number of bytes it took.
    Record(RecordView, nat),
    /// The four terminator bytes stand at the front.
    EndOfMessage,
    /// Too few bytes for the code and length, or for the payload.
    Truncated,
}

/// A big-endian 16-bit value.
pub open spec fn be16(hi: u8, lo: u8) -> nat {
    hi as nat * 256 + lo as nat
}

/// The sequence starts with the terminator `FF FF 00 00`.
pub open spec fn starts_with_terminator(b: Seq<u8>) -> bool {
    &&& b.len() >= 4
    &&& b[0] == 0xFFu8
    &&& b[1] == 0xFFu8
    &&& b[2] == 0u8
    &&& b[3] == 0u8
}

/// The terminator that ends every record list.
pub open spec fn terminator() -> Seq<u8> {
    seq![0xFFu8, 0xFFu8, 0u8, 0u8]
}

/// The wire form of a record: code, payload length high byte first, payload.
pub open spec fn encode_record(r: RecordView) -> Seq<u8> {
    seq![
        r.code.0,
        r.code.1,
        (r.payload.len() / 256) as u8,
        (r.payload.len() % 256) as u8,
    ] + r.payload
}

/// Reads one record from the front of `b`.
pub open spec fn decode_record(b: Seq<u8>) -> Decoded {
    if b.len() < 4 {
        Decoded::Truncated
    } else if starts_with_terminator(b) {
        Decoded::EndOfMessage
    } else {
        let n = be16(b[2], b[3]);
        if b.len() < 4 + n {
            Decoded::Truncated
        } else {
            Decoded::Record(
                RecordView { code: (b[0], b[1]), payload: b.subrange(4, 4 + n as int) },
                (4 + n) as nat,
            )
        }
    }
}

/// A record whose encoding would read back as the terminator: code `FF FF`
/// with an empty payload.
pub open spec fn encodes_as_terminator(r: RecordView) -> bool {
    r.code == (0xFFu8, 0xFFu8) && r.payload.len() == 0
}

/// Errors met while reading records or interpreting a payload.
#[derive(Debug)]
pub enum TLVReadingError {
    /// Too few bytes for a header, a record's code and length, or its payload.
    ArrTooShort(String),
    /// The payload has the wrong size for the requested type.
    InvalidType(String),
    /// The payload is not valid UTF-8 text.
    InvalidEncoding(String),
    /// The record list ended: not an error, the terminator was read.
    EndOfMessage,
}

/// One type-length-value record. Its declared length always equals the
/// length of its payload.
#[derive(Debug)]
pub struct TypeLengthValue {
    cmd: [u8; 2],
    len: u16,
    value: Vec<u8>,
}

impl View for TypeLengthValue {
    type V = RecordView;

    closed spec fn view(&self) -> RecordView {
        RecordView { code: (self.cmd[0], self.cmd[1]), payload: self.value@ }
    }
}

/// Relies on std's `String::from_utf8`: it succeeds exactly on valid UTF-8
/// and then holds the characters that the bytes encode.
#[verifier::external_body]
fn utf8_to_string(bytes: Vec<u8>) -> (r: Option<String>)
    ensures
        r is Some <==> valid_utf8(bytes@),
        r matches Some(s) ==> s@ == decode_utf8(bytes@),
{
    String::from_utf8(bytes).ok()
}

impl TypeLengthValue {
    #[verifier::type_invariant]
    closed spec fn length_matches(&self) -> bool {
        self.len as nat == self.value@.len()
    }

    /// A record with the given code and payload.
    pub fn new(code: [u8; 2], value: Vec<u8>) -> (r: TypeLengthValue)
        requires
            value@.len() <= 0xFFFF,
        ensures
            r@ == (RecordView { code: (code[0], code[1]), payload: value@ }),
    {
        let len = value.len() as u16;
        TypeLengthValue { cmd: code, len, value }
    }

    /// A record for a command with an empty payload, as sent in a query.
    pub fn from_cmd(cmd: Cmd) -> (r: TypeLengthValue)
        ensures
            r@ == (RecordView { code: cmd.spec_code(), payload: Seq::empty() }),
    {
        TypeLengthValue { cmd: cmd.code(), len: 0, value: Vec::new() }
    }

    /// A record for a command carrying the given payload.
    pub fn with_value(cmd: Cmd, value: Vec<u8>) -> (r: TypeLengthValue)
        requires
            value@.len() <= 0xFFFF,
        ensures
            r@ == (RecordView { code: cmd.spec_code(), payload: value@ }),
    {
        TypeLengthValue::new(cmd.code(), value)
    }

    /// The record's two-byte code.
    pub fn code(&self) -> (r: [u8; 2])
        ensures
            (r[0], r[1]) == self@.code,
    {
        self.cmd
    }

    /// The declared payload length.
    pub fn len(&self) -> (r: u16)
        ensures
            r as nat == self@.payload.len(),
    {
        proof {
            use_type_invariant(self);
        }
        self.len
    }

    /// The payload bytes.
    pub fn value(&self) -> (r: &[u8])
        ensures
            r@ == self@.payload,
    {
        self.value.as_slice()
    }

    /// Reads one record from the front of `raw`, with the number of bytes it took.
    pub fn from_raw(raw: &[u8]) -> (r: Result<(TypeLengthValue, usize), TLVReadingError>)
        ensures
            match decode_record(raw@) {
                Decoded::Record(rec, n) => r matches Ok((t, k)) && t@ == rec && k == n,
                Decoded::EndOfMessage => r matches Err(TLVReadingError::EndOfMessage),
                Decoded::Truncated => r matches Err(TLVReadingError::ArrTooShort(_)),
            },
    {
        if raw.len() < 4 {
            return Err(TLVReadingError::ArrTooShort("Raw array too short for type/length".to_owned()));
        }
        if raw[0] == 0xFF && raw[1] == 0xFF && raw[2] == 0x00 && raw[3] == 0x00 {
            return Err(TLVReadingError::EndOfMessage);
        }
        let len: u16 = (raw[2] as u16) * 256 + raw[3] as u16;
        let len_index: usize = len as usize + 4;
        if raw.len() < len_index {
            return Err(TLVReadingError::ArrTooShort("Raw array too short for value".to_owned()));
        }
        let value = slice_to_vec(slice_subrange(raw, 4, len_index));
        let tlv = TypeLengthValue { cmd: [raw[0], raw[1]], len, value };
        assert(tlv@.payload =~= raw@.subrange(4, 4 + be16(raw@[2], raw@[3]) as int));
        Ok((tlv, len_index))
    }

    /// The wire bytes of the record.
    pub fn to_raw(&self) -> (r: Vec<u8>)
        ensures
            r@ == encode_record(self@),
    {
        proof {
            use_type_invariant(self);
        }
        let mut out: Vec<u8> = Vec::new();
        out.push(self.cmd[0]);
        out.push(self.cmd[1]);
        out.push((self.len / 256) as u8);
        out.push((self.len % 256) as u8);
        let mut i: usize = 0;
        while i < self.value.len()
            invariant
                i <= self.value@.len(),
                out@ == seq![
                    self.cmd[0],
                    self.cmd[1],
                    (self.len / 256) as u8,
                    (self.len % 256) as u8,
                ] + self.value@.take(i as int),
            decreases self.value@.len() - i,
        {
            out.push(self.value[i]);
            i = i + 1;
            assert(self.value@.take(i as int) =~= self.value@.take(i - 1).push(self.value@[i - 1]));
        }
        assert(self.value@.take(i as int) =~= self.value@);
        out
    }

    /// Whether the record's code is the wire code of `cmd`.
    pub fn cmd_equal_to(&self, cmd: &Cmd) -> (r: bool)
        ensures
            r == (self@.code == cmd.spec_code()),
    {
        let code = cmd.code();
        self.cmd[0] == code[0] && self.cmd[1] == code[1]
    }

    /// The payload read as UTF-8 text.
    pub fn to_text(&self) -> (r: Result<String, TLVReadingError>)
        ensures
            valid_utf8(self@.payload) ==> (r matches Ok(s) && s@ == decode_utf8(self@.payload)),
            !valid_utf8(self@.payload) ==> r matches Err(TLVReadingError::InvalidEncoding(_)),
    {
        match utf8_to_string(slice_to_vec(self.value.as_slice())) {
            Some(s) => Ok(s),
            None => Err(TLVReadingError::InvalidEncoding("Payload is not valid UTF-8".to_owned())),
        }
    }

    /// The payload read as the four octets of an IPv4 address.
    pub fn to_ipv4(&self) -> (r: Result<[u8; 4], TLVReadingError>)
        ensures
            self@.payload.len() == 4 ==> (r matches Ok(a) && a@ == self@.payload),
            self@.payload.len() != 4 ==> r matches Err(TLVReadingError::InvalidType(_)),
    {
        proof {
            use_type_invariant(self);
        }
        if self.len == 4 {
            let a = [self.value[0], self.value[1], self.value[2], self.value[3]];
            assert(a@ =~= self.value@);
            return Ok(a);
        }
        Err(TLVReadingError::InvalidType("Invalid type for IPv4 address".to_owned()))
    }
}

impl Clone for TypeLengthValue {
    fn clone(&self) -> (r: TypeLengthValue)
        ensures
            r@ == self@,
    {
        proof {
            use_type_invariant(self);
        }
        TypeLengthValue { cmd: self.cmd, len: self.len, value: slice_to_vec(self.value.as_slice()) }
    }
}

impl Default for TypeLengthValue {
    fn default() -> (r: TypeLengthValue)
        ensures
            r@ == (RecordView { code: (0u8, 0u8), payload: Seq::empty() }),
    {
        TypeLengthValue { cmd: [0, 0], len: 0, value: Vec::new() }
    }
}

} // verus!
