//! Sessions and outbound messages: the fixed 32-byte header, the records in
//! order, and the terminator.
use vstd::prelude::*;

use crate::consts::ProtoConsts;
use crate::tlv::{encode_record, terminator, RecordView, TypeLengthValue};

verus! {

/// The identity and sequence fields of one exchange.
pub struct SessionView {
    pub seq: Seq<u8>,
    pub source_mac: Seq<u8>,
    pub dest_mac: Seq<u8>,
}

/// A whole message: control type, session and records.
pub struct MessageView {
    pub ctype: Seq<u8>,
    pub session: SessionView,
    pub records: Seq<RecordView>,
}

/// `n` zero bytes.
pub open spec fn zeros(n: nat) -> Seq<u8> {
    Seq::new(n, |i: int| 0u8)
}

/// The protocol tag at header offset 24: ASCII `NSDP`.
pub open spec fn magic() -> Seq<u8> {
    seq![0x4Eu8, 0x53u8, 0x44u8, 0x50u8]
}

/// The field sizes a header needs: two bytes of control type and sequence,
/// six of each hardware address.
pub open spec fn header_fields_fit(ctype: Seq<u8>, s: SessionView) -> bool {
    &&& ctype.len() == 2
    &&& s.seq.len() == 2
    &&& s.source_mac.len() == 6
    &&& s.dest_mac.len() == 6
}

/// The 32-byte header.
pub open spec fn header(ctype: Seq<u8>, s: SessionView) -> Seq<u8> {
    ctype + zeros(6) + s.source_mac + s.dest_mac + zeros(2) + s.seq + magic() + zeros(4)
}

/// The records' encodings, one after another, in order.
pub open spec fn encode_records(rs: Seq<RecordView>) -> Seq<u8>
    decreases rs.len(),
{
    if rs.len() == 0 {
        Seq::empty()
    } else {
        encode_record(rs[0]) + encode_records(rs.drop_first())
    }
}

/// The wire bytes of a message: header, records, terminator.
pub open spec fn serialize(m: MessageView) -> Seq<u8> {
    header(m.ctype, m.session) + encode_records(m.records) + terminator()
}

/// Appending a record appends its encoding.
pub proof fn lemma_encode_records_push(rs: Seq<RecordView>, r: RecordView)
    ensures
        encode_records(rs.push(r)) == encode_records(rs) + encode_record(r),
    decreases rs.len(),
{
    if rs.len() == 0 {
        assert(rs.push(r).drop_first() =~= Seq::<RecordView>::empty());
        assert(encode_records(rs.push(r).drop_first()) == Seq::<u8>::empty());
        assert(rs.push(r)[0] == r);
        assert(encode_records(rs.push(r)) =~= encode_records(rs) + encode_record(r));
    } else {
        assert(rs.push(r).drop_first() =~= rs.drop_first().push(r));
        lemma_encode_records_push(rs.drop_first(), r);
        assert(encode_records(rs.push(r)) =~= encode_records(rs) + encode_record(r));
    }
}

/// Relies on rand's `random`: any byte may come back.
#[verifier::external_body]
fn random_byte() -> u8 {
    rand::random::<u8>()
}

/// Sequence number and hardware addresses of one exchange.
#[derive(Debug)]
pub struct Session {
    seq: [u8; 2],
    source_mac: [u8; 6],
    dest_mac: [u8; 6],
}

impl View for Session {
    type V = SessionView;

    closed spec fn view(&self) -> SessionView {
        SessionView { seq: self.seq@, source_mac: self.source_mac@, dest_mac: self.dest_mac@ }
    }
}

impl Session {
    pub fn new(source_mac: [u8; 6], dest_mac: [u8; 6], seq: [u8; 2]) -> (r: Session)
        ensures
            r@ == (SessionView { seq: seq@, source_mac: source_mac@, dest_mac: dest_mac@ }),
    {
        Session { seq, source_mac, dest_mac }
    }

    /// A session whose sequence number has a zero high byte and a random low byte.
    pub fn new_random_seq(source_mac: [u8; 6], dest_mac: [u8; 6]) -> (r: Session)
        ensures
            r@.source_mac == source_mac@,
            r@.dest_mac == dest_mac@,
            r@.seq.len() == 2,
            r@.seq[0] == 0u8,
    {
        Session { seq: [0x00, random_byte()], source_mac, dest_mac }
    }

    /// The switch's hardware address: the destination of the exchange.
    pub fn get_switch_mac(&self) -> (r: [u8; 6])
        ensures
            r@ == self@.dest_mac,
    {
        self.dest_mac
    }

    pub fn get_source_mac(&self) -> (r: [u8; 6])
        ensures
            r@ == self@.source_mac,
    {
        self.source_mac
    }

    pub fn get_seq(&self) -> (r: [u8; 2])
        ensures
            r@ == self@.seq,
    {
        self.seq
    }
}

/// The views of a list of records.
pub open spec fn record_views(v: Seq<TypeLengthValue>) -> Seq<RecordView> {
    v.map_values(|t: TypeLengthValue| t@)
}

/// Appends `src` to `out`.
fn push_bytes(out: &mut Vec<u8>, src: &[u8])
    ensures
        final(out)@ == old(out)@ + src@,
{
    let mut i: usize = 0;
    while i < src.len()
        invariant
            i <= src@.len(),
            out@ == old(out)@ + src@.take(i as int),
        decreases src@.len() - i,
    {
        out.push(src[i]);
        i = i + 1;
        assert(src@.take(i as int) =~= src@.take(i - 1).push(src@[i - 1]));
    }
    assert(src@.take(i as int) =~= src@);
}

/// Appends `n` zero bytes to `out`.
fn push_zeros(out: &mut Vec<u8>, n: usize)
    ensures
        final(out)@ == old(out)@ + zeros(n as nat),
{
    let mut i: usize = 0;
    while i < n
        invariant
            i <= n,
            out@ == old(out)@ + zeros(i as nat),
        decreases n - i,
    {
        out.push(0u8);
        i = i + 1;
        assert(zeros(i as nat) =~= zeros((i - 1) as nat).push(0u8));
    }
}

/// An outbound message.
#[derive(Debug)]
pub struct Request {
    cmds: Vec<TypeLengthValue>,
    ctype: [u8; 2],
    session: Session,
}

impl View for Request {
    type V = MessageView;

    closed spec fn view(&self) -> MessageView {
        MessageView { ctype: self.ctype@, session: self.session@, records: record_views(self.cmds@) }
    }
}

impl Request {
    pub fn builder() -> (r: RequestBuilder)
        ensures
            r@.ctype is None,
            r@.session is None,
            r@.records == Seq::<RecordView>::empty(),
    {
        RequestBuilder::new()
    }

    /// A message with the given control type, session and records.
    pub fn new(ctype: [u8; 2], session: Session, cmds: Vec<TypeLengthValue>) -> (r: Request)
        ensures
            r@ == (MessageView { ctype: ctype@, session: session@, records: record_views(cmds@) }),
    {
        Request { cmds, ctype, session }
    }

    pub fn get_ctype(&self) -> (r: [u8; 2])
        ensures
            r@ == self@.ctype,
    {
        self.ctype
    }

    pub fn get_session(&self) -> (r: &Session)
        ensures
            r@ == self@.session,
    {
        &self.session
    }

    pub fn get_cmds(&self) -> (r: &Vec<TypeLengthValue>)
        ensures
            record_views(r@) == self@.records,
    {
        &self.cmds
    }

    /// The wire bytes: header, each record in order, terminator.
    pub fn format(&self) -> (r: Vec<u8>)
        ensures
            r@ == serialize(self@),
    {
        let mut out: Vec<u8> = Vec::new();
        push_bytes(&mut out, self.ctype.as_slice());
        push_zeros(&mut out, 6);
        push_bytes(&mut out, self.session.source_mac.as_slice());
        push_bytes(&mut out, self.session.dest_mac.as_slice());
        push_zeros(&mut out, 2);
        push_bytes(&mut out, self.session.seq.as_slice());
        push_bytes(&mut out, ProtoConsts::NDSP.value());
        push_zeros(&mut out, 4);
        assert(out@ =~= header(self@.ctype, self@.session));
        let mut i: usize = 0;
        while i < self.cmds.len()
            invariant
                i <= self.cmds@.len(),
                out@ == header(self@.ctype, self@.session) + encode_records(
                    record_views(self.cmds@).take(i as int),
                ),
            decreases self.cmds@.len() - i,
        {
            let mut raw = self.cmds[i].to_raw();
            out.append(&mut raw);
            proof {
                let views = record_views(self.cmds@);
                assert(views.take(i + 1) =~= views.take(i as int).push(views[i as int]));
                lemma_encode_records_push(views.take(i as int), views[i as int]);
            }
            i = i + 1;
        }
        assert(record_views(self.cmds@).take(i as int) =~= record_views(self.cmds@));
        push_bytes(&mut out, ProtoConsts::EndOfMessage.value());
        out
    }
}

/// What a builder has collected so far.
pub struct BuilderView {
    pub ctype: Option<Seq<u8>>,
    pub session: Option<SessionView>,
    pub records: Seq<RecordView>,
}

/// Collects the parts of a request; both a control type and a session are
/// needed before `build`.
pub struct RequestBuilder {
    cmds: Vec<TypeLengthValue>,
    session: Option<Session>,
    ctype: Option<[u8; 2]>,
}

impl View for RequestBuilder {
    type V = BuilderView;

    closed spec fn view(&self) -> BuilderView {
        BuilderView {
            ctype: match self.ctype {
                Some(c) => Some(c@),
                None => None,
            },
            session: match self.session {
                Some(s) => Some(s@),
                None => None,
            },
            records: record_views(self.cmds@),
        }
    }
}

impl RequestBuilder {
    pub fn new() -> (r: RequestBuilder)
        ensures
            r@.ctype is None,
            r@.session is None,
            r@.records == Seq::<RecordView>::empty(),
    {
        let r = RequestBuilder { cmds: Vec::new(), session: None, ctype: None };
        assert(r@.records =~= Seq::<RecordView>::empty());
        r
    }

    pub fn ctype(self, value: [u8; 2]) -> (r: RequestBuilder)
        ensures
            r@ == (BuilderView { ctype: Some(value@), ..self@ }),
    {
        RequestBuilder { ctype: Some(value), ..self }
    }

    /// Appends a record after those already added.
    pub fn add_cmd(self, cmd: TypeLengthValue) -> (r: RequestBuilder)
        ensures
            r@ == (BuilderView { records: self@.records.push(cmd@), ..self@ }),
    {
        let mut s = self;
        s.cmds.push(cmd);
        assert(record_views(s.cmds@) =~= self@.records.push(cmd@));
        s
    }

    pub fn session(self, value: Session) -> (r: RequestBuilder)
        ensures
            r@ == (BuilderView { session: Some(value@), ..self@ }),
    {
        RequestBuilder { session: Some(value), ..self }
    }

    pub fn build(self) -> (r: Request)
        requires
            self@.ctype is Some,
            self@.session is Some,
        ensures
            r@ == (MessageView {
                ctype: self@.ctype->0,
                session: self@.session->0,
                records: self@.records,
            }),
    {
        match (self.ctype, self.session) {
            (Some(ctype), Some(session)) => Request { cmds: self.cmds, ctype, session },
            _ => {
                proof {
                    assert(false);
                }
                Request {
                    cmds: Vec::new(),
                    ctype: [0, 0],
                    session: Session { seq: [0, 0], source_mac: [0; 6], dest_mac: [0; 6] },
                }
            },
        }
    }
}

} // verus!
