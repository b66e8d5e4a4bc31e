//! Properties that relate the encoders and the decoders.
use vstd::prelude::*;

use crate::request::{encode_records, header, header_fields_fit, serialize, MessageView};
use crate::response::{decode_records, parse};
use crate::tlv::{
    be16, decode_record, encode_record, encodes_as_terminator, starts_with_terminator,
    terminator, Decoded, RecordView,
};

verus! {

/// A record that a 16-bit length can describe.
pub open spec fn record_fits(r: RecordView) -> bool {
    r.payload.len() <= 0xFFFF
}

/// Every record of the list fits a 16-bit length and none encodes as the
/// terminator.
pub open spec fn records_encodable(rs: Seq<RecordView>) -> bool {
    forall|i: int| 0 <= i < rs.len() ==> record_fits(#[trigger] rs[i]) && !encodes_as_terminator(rs[i])
}

/// What follows an encoded record can be read back field by field.
proof fn lemma_encoded_record_fields(r: RecordView, rest: Seq<u8>)
    requires
        record_fits(r),
    ensures
        ({
            let b = encode_record(r) + rest;
            let n = r.payload.len();
            &&& b.len() >= 4 + n
            &&& b[0] == r.code.0
            &&& b[1] == r.code.1
            &&& be16(b[2], b[3]) == n
            &&& b.subrange(4, 4 + n as int) == r.payload
            &&& b.subrange(4 + n as int, b.len() as int) == rest
            &&& (starts_with_terminator(b) <==> encodes_as_terminator(r))
        }),
{
    let b = encode_record(r) + rest;
    let n = r.payload.len();
    assert(b[2] == (n / 256) as u8);
    assert(b[3] == (n % 256) as u8);
    assert(be16(b[2], b[3]) == n);
    assert(b.subrange(4, 4 + n as int) =~= r.payload);
    assert(b.subrange(4 + n as int, b.len() as int) =~= rest);
}

/// Reading back an encoded record gives the record and its full length,
/// whatever bytes follow it. The one record that cannot come back is code
/// `FF FF` with an empty payload, whose encoding is the terminator.
pub proof fn lemma_record_round_trip(r: RecordView, rest: Seq<u8>)
    requires
        record_fits(r),
        !encodes_as_terminator(r),
    ensures
        decode_record(encode_record(r) + rest) == Decoded::Record(r, 4 + r.payload.len()),
        decode_record(encode_record(r)) == Decoded::Record(r, 4 + r.payload.len()),
{
    lemma_encoded_record_fields(r, rest);
    lemma_encoded_record_fields(r, Seq::empty());
    assert(encode_record(r) + Seq::<u8>::empty() =~= encode_record(r));
}

/// Bytes that start with the terminator always read as the end of the
/// record list, whatever follows.
pub proof fn lemma_terminator_detected(b: Seq<u8>)
    requires
        starts_with_terminator(b),
    ensures
        decode_record(b) == Decoded::EndOfMessage,
{
}

/// Fewer than four bytes, or fewer than four plus the declared length, read
/// as truncated.
pub proof fn lemma_truncated(b: Seq<u8>)
    requires
        b.len() < 4 || (!starts_with_terminator(b) && b.len() < 4 + be16(b[2], b[3])),
    ensures
        decode_record(b) == Decoded::Truncated,
{
}

/// Encoded records followed by the terminator read back as the same records.
pub proof fn lemma_records_round_trip(rs: Seq<RecordView>, rest: Seq<u8>)
    requires
        records_encodable(rs),
    ensures
        decode_records(encode_records(rs) + terminator() + rest) == Some(rs),
    decreases rs.len(),
{
    let b = encode_records(rs) + terminator() + rest;
    if rs.len() == 0 {
        assert(b =~= terminator() + rest);
        assert(starts_with_terminator(b));
    } else {
        let r = rs[0];
        let tail = encode_records(rs.drop_first()) + terminator() + rest;
        assert(b =~= encode_record(r) + tail);
        assert(record_fits(r) && !encodes_as_terminator(r));
        lemma_encoded_record_fields(r, tail);
        assert(records_encodable(rs.drop_first())) by {
            assert forall|i: int| 0 <= i < rs.drop_first().len() implies record_fits(
                #[trigger] rs.drop_first()[i],
            ) && !encodes_as_terminator(rs.drop_first()[i]) by {
                assert(rs.drop_first()[i] == rs[i + 1]);
            }
        }
        lemma_records_round_trip(rs.drop_first(), rest);
        assert(seq![r] + rs.drop_first() =~= rs);
    }
}

/// Parsing the bytes of a serialized message gives the message back, for
/// every control type, session and list of encodable records.
pub proof fn lemma_message_round_trip(m: MessageView)
    requires
        header_fields_fit(m.ctype, m.session),
        records_encodable(m.records),
    ensures
        parse(serialize(m)) == Some(m),
{
    let b = serialize(m);
    let h = header(m.ctype, m.session);
    assert(h.len() == 32);
    assert(h.subrange(0, 2) =~= m.ctype);
    assert(h.subrange(8, 14) =~= m.session.source_mac);
    assert(h.subrange(14, 20) =~= m.session.dest_mac);
    assert(h.subrange(22, 24) =~= m.session.seq);
    assert(b.subrange(0, 2) =~= m.ctype);
    assert(b.subrange(8, 14) =~= m.session.source_mac);
    assert(b.subrange(14, 20) =~= m.session.dest_mac);
    assert(b.subrange(22, 24) =~= m.session.seq);
    assert(b.subrange(32, b.len() as int) =~= encode_records(m.records) + terminator()
        + Seq::<u8>::empty());
    lemma_records_round_trip(m.records, Seq::empty());
}

} // verus!
