//! Inbound messages: the header read by fixed offsets, then records up to the
//! terminator.
use vstd::prelude::*;
use vstd::slice::slice_subrange;

use crate::cmds::Cmd;
use crate::request::{record_views, MessageView, Session, SessionView};
use crate::tlv::{be16, starts_with_terminator, RecordView, TLVReadingError, TypeLengthValue};

verus! {

/// Reads records until the terminator; `None` when the bytes run out first.
pub open spec fn decode_records(b: Seq<u8>) -> Option<Seq<RecordView>>
    decreases b.len(),
{
    if b.len() < 4 {
        None
    } else if starts_with_terminator(b) {
        Some(Seq::empty())
    } else {
        let n = 4 + be16(b[2], b[3]);
        if b.len() < n {
            None
        } else {
            match decode_records(b.subrange(n as int, b.len() as int)) {
                Some(rest) => Some(
                    seq![RecordView { code: (b[0], b[1]), payload: b.subrange(4, n as int) }]
                        + rest,
                ),
                None => None,
            }
        }
    }
}

/// Reads a whole message: `None` when it is shorter than its header or its
/// record list is cut short.
pub open spec fn parse(b: Seq<u8>) -> Option<MessageView> {
    if b.len() < 32 {
        None
    } else {
        match decode_records(b.subrange(32, b.len() as int)) {
            Some(rs) => Some(
                MessageView {
                    ctype: b.subrange(0, 2),
                    session: SessionView {
                        seq: b.subrange(22, 24),
                        source_mac: b.subrange(8, 14),
                        dest_mac: b.subrange(14, 20),
                    },
                    records: rs,
                },
            ),
            None => None,
        }
    }
}

/// Puts `front` before the records of a successful read.
pub open spec fn prepend(front: Seq<RecordView>, o: Option<Seq<RecordView>>) -> Option<
    Seq<RecordView>,
> {
    match o {
        Some(rs) => Some(front + rs),
        None => None,
    }
}

/// The first record with the given code.
pub open spec fn first_with_code(rs: Seq<RecordView>, code: (u8, u8)) -> Option<RecordView>
    decreases rs.len(),
{
    if rs.len() == 0 {
        None
    } else if rs[0].code == code {
        Some(rs[0])
    } else {
        first_with_code(rs.drop_first(), code)
    }
}

/// A parsed inbound message.
#[derive(Debug)]
pub struct Response {
    cmds: Vec<TypeLengthValue>,
    ctype: [u8; 2],
    session: Session,
}

impl View for Response {
    type V = MessageView;

    closed spec fn view(&self) -> MessageView {
        MessageView { ctype: self.ctype@, session: self.session@, records: record_views(self.cmds@) }
    }
}

impl Response {
    /// Parses a received message. The protocol tag is read but not checked.
    pub fn build(msg: &[u8]) -> (r: Result<Response, TLVReadingError>)
        ensures
            match parse(msg@) {
                Some(m) => r matches Ok(resp) && resp@ == m,
                None => r matches Err(TLVReadingError::ArrTooShort(_)),
            },
    {
        if msg.len() < 32 {
            return Err(TLVReadingError::ArrTooShort("Message too short for header".to_owned()));
        }
        let ctype: [u8; 2] = [msg[0], msg[1]];
        let source_mac: [u8; 6] = [msg[8], msg[9], msg[10], msg[11], msg[12], msg[13]];
        let dest_mac: [u8; 6] = [msg[14], msg[15], msg[16], msg[17], msg[18], msg[19]];
        let seq: [u8; 2] = [msg[22], msg[23]];
        assert(ctype@ =~= msg@.subrange(0, 2));
        assert(source_mac@ =~= msg@.subrange(8, 14));
        assert(dest_mac@ =~= msg@.subrange(14, 20));
        assert(seq@ =~= msg@.subrange(22, 24));

        let mut cmds: Vec<TypeLengthValue> = Vec::new();
        let mut current_index: usize = 32;
        let ghost body = msg@.subrange(32, msg@.len() as int);
        assert(msg@.subrange(32, msg@.len() as int) =~= body);
        assert(record_views(cmds@) =~= Seq::<RecordView>::empty());
        assert(Seq::<RecordView>::empty() + Seq::<RecordView>::empty() =~= Seq::<RecordView>::empty());
        loop
            invariant
                32 <= current_index <= msg@.len(),
                body == msg@.subrange(32, msg@.len() as int),
                decode_records(body) == prepend(
                    record_views(cmds@),
                    decode_records(msg@.subrange(current_index as int, msg@.len() as int)),
                ),
            ensures
                decode_records(body) == Some(record_views(cmds@)),
            decreases msg@.len() - current_index,
        {
            let rest = slice_subrange(msg, current_index, msg.len());
            proof {
                reveal_with_fuel(decode_records, 2);
            }
            match TypeLengthValue::from_raw(rest) {
                Ok((tlv, len_index)) => {
                    proof {
                        let n = len_index as int;
                        let tail = msg@.subrange(current_index + n, msg@.len() as int);
                        assert(rest@.subrange(n, rest@.len() as int) =~= tail);
                        let views = record_views(cmds@);
                        let after = record_views(cmds@.push(tlv));
                        assert(after =~= views.push(tlv@));
                        match decode_records(tail) {
                            Some(rs) => {
                                assert(views + (seq![tlv@] + rs) =~= after + rs);
                            },
                            None => {},
                        }
                    }
                    cmds.push(tlv);
                    current_index = current_index + len_index;
                },
                Err(TLVReadingError::EndOfMessage) => {
                    assert(record_views(cmds@) + Seq::<RecordView>::empty() =~= record_views(
                        cmds@,
                    ));
                    break ;
                },
                Err(e) => {
                    assert(decode_records(body) is None);
                    return Err(e);
                },
            }
        }
        Ok(Response { cmds, ctype, session: Session::new(source_mac, dest_mac, seq) })
    }

    pub fn get_session(&self) -> (r: &Session)
        ensures
            r@ == self@.session,
    {
        &self.session
    }

    pub fn get_ctype(&self) -> (r: [u8; 2])
        ensures
            r@ == self@.ctype,
    {
        self.ctype
    }

    pub fn get_cmds(&self) -> (r: &Vec<TypeLengthValue>)
        ensures
            record_views(r@) == self@.records,
    {
        &self.cmds
    }

    /// The first record whose code is the wire code of `cmd`.
    pub fn get_cmd(&self, cmd: Cmd) -> (r: Result<TypeLengthValue, String>)
        ensures
            match first_with_code(self@.records, cmd.spec_code()) {
                Some(rec) => r matches Ok(t) && t@ == rec,
                None => r is Err,
            },
    {
        let mut i: usize = 0;
        assert(self@.records.skip(0) =~= self@.records);
        while i < self.cmds.len()
            invariant
                i <= self.cmds@.len(),
                first_with_code(self@.records, cmd.spec_code()) == first_with_code(
                    self@.records.skip(i as int),
                    cmd.spec_code(),
                ),
            decreases self.cmds@.len() - i,
        {
            let a = &self.cmds[i];
            proof {
                assert(self@.records.skip(i as int).drop_first() =~= self@.records.skip(i + 1));
            }
            if a.cmd_equal_to(&cmd) {
                return Ok(a.clone());
            }
            i = i + 1;
        }
        Err("Not found".to_owned())
    }
}

} // verus!
