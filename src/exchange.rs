//! The two interaction patterns: discovery (one broadcast query, replies
//! gathered until a timeout or the attempts run out) and the targeted
//! exchange (login, then one bulk query). Sending and receiving belong to the
//! caller; this module decides what to send and what each event means.
use vstd::prelude::*;
use vstd::utf8::{decode_utf8, valid_utf8};

use crate::cmds::{registry_with, Cmd, CmdAttributes};
use crate::consts::ProtoConsts;
use crate::request::{record_views, zeros, MessageView, Request, Session};
use crate::response::{first_with_code, parse, Response};
use crate::secret::{login_record, obfuscation_key, xor_bytes};
use crate::tlv::{RecordView, TLVReadingError, TypeLengthValue};
use vstd::string::StringSliceAdditionalSpecFns;

verus! {

/// How many replies discovery waits for at most.
pub const DISCOVERY_ATTEMPTS: usize = 6;

/// The records of a query for the given commands: each code with an empty payload.
pub open spec fn query_records(cmds: Seq<Cmd>) -> Seq<RecordView> {
    cmds.map_values(|c: Cmd| RecordView { code: c.spec_code(), payload: Seq::empty() })
}

/// What discovery asks each switch for.
pub open spec fn discovery_cmds() -> Seq<Cmd> {
    seq![Cmd::CMD_Name, Cmd::CMD_Model, Cmd::CMD_Location, Cmd::CMD_IPv4]
}

/// What a bulk query asks for: every read-only command, in registry order.
pub open spec fn bulk_query_cmds() -> Seq<Cmd> {
    registry_with(CmdAttributes::ReadOnly)
}

/// A switch as discovery reports it.
pub struct SwitchView {
    pub name: Seq<char>,
    pub model: Seq<char>,
    pub location: Seq<char>,
    pub ipv4_address_reported: Seq<u8>,
    pub ipv4_address: Seq<char>,
    pub mac_address: Seq<u8>,
}

/// A record's payload as text, when it is valid UTF-8.
pub open spec fn text_of(r: Option<RecordView>) -> Option<Seq<char>> {
    match r {
        Some(rec) => if valid_utf8(rec.payload) {
            Some(decode_utf8(rec.payload))
        } else {
            None
        },
        None => None,
    }
}

/// A record's payload as an IPv4 address, when it has four bytes.
pub open spec fn ipv4_of(r: Option<RecordView>) -> Option<Seq<u8>> {
    match r {
        Some(rec) => if rec.payload.len() == 4 {
            Some(rec.payload)
        } else {
            None
        },
        None => None,
    }
}

/// The switch that a reply received from `address` describes: `None` when
/// the reply does not parse or lacks one of the requested fields in the
/// right form. Each field comes from the first record with its code.
pub open spec fn switch_of(b: Seq<u8>, address: Seq<char>) -> Option<SwitchView> {
    match parse(b) {
        None => None,
        Some(m) => {
            let name = text_of(first_with_code(m.records, Cmd::CMD_Name.spec_code()));
            let model = text_of(first_with_code(m.records, Cmd::CMD_Model.spec_code()));
            let location = text_of(first_with_code(m.records, Cmd::CMD_Location.spec_code()));
            let ip = ipv4_of(first_with_code(m.records, Cmd::CMD_IPv4.spec_code()));
            if name is Some && model is Some && location is Some && ip is Some {
                Some(
                    SwitchView {
                        name: name->0,
                        model: model->0,
                        location: location->0,
                        ipv4_address_reported: ip->0,
                        ipv4_address: address,
                        mac_address: m.session.dest_mac,
                    },
                )
            } else {
                None
            }
        },
    }
}

/// A switch found by discovery.
#[derive(Debug)]
pub struct Switch {
    pub name: String,
    pub model: String,
    pub location: String,
    pub ipv4_address_reported: [u8; 4],
    pub ipv4_address: String,
    pub mac_address: [u8; 6],
}

impl View for Switch {
    type V = SwitchView;

    open spec fn view(&self) -> SwitchView {
        SwitchView {
            name: self.name@,
            model: self.model@,
            location: self.location@,
            ipv4_address_reported: self.ipv4_address_reported@,
            ipv4_address: self.ipv4_address@,
            mac_address: self.mac_address@,
        }
    }
}

/// A query for the given commands, in their order.
fn query_request(ctype: [u8; 2], session: Session, cmds: &Vec<Cmd>) -> (r: Request)
    ensures
        r@ == (MessageView { ctype: ctype@, session: session@, records: query_records(cmds@) }),
{
    let mut records: Vec<TypeLengthValue> = Vec::new();
    let mut i: usize = 0;
    while i < cmds.len()
        invariant
            i <= cmds@.len(),
            record_views(records@) == query_records(cmds@.take(i as int)),
        decreases cmds@.len() - i,
    {
        let t = TypeLengthValue::from_cmd(cmds[i]);
        let ghost before = records@;
        records.push(t);
        assert(cmds@.take(i + 1) =~= cmds@.take(i as int).push(cmds@[i as int]));
        assert(record_views(records@) =~= record_views(before).push(t@));
        i = i + 1;
        assert(record_views(records@) =~= query_records(cmds@.take(i as int)));
    }
    assert(cmds@.take(i as int) =~= cmds@);
    Request::new(ctype, session, records)
}

/// The broadcast query that starts discovery: name, model, location and
/// reported IPv4 address, from `source_mac` to the broadcast address, with a
/// fresh sequence number.
pub fn discovery_request(source_mac: [u8; 6]) -> (r: Request)
    ensures
        r@.ctype == ProtoConsts::QueryRequest.bytes(),
        r@.session.source_mac == source_mac@,
        r@.session.dest_mac == zeros(6),
        r@.session.seq.len() == 2,
        r@.session.seq[0] == 0u8,
        r@.records == query_records(discovery_cmds()),
{
    let cmds: Vec<Cmd> = vec![Cmd::CMD_Name, Cmd::CMD_Model, Cmd::CMD_Location, Cmd::CMD_IPv4];
    assert(cmds@ =~= discovery_cmds());
    let broadcast: [u8; 6] = [0; 6];
    assert(broadcast@ =~= zeros(6));
    let session = Session::new_random_seq(source_mac, broadcast);
    let ctype: [u8; 2] = [0x01, 0x01];
    assert(ctype@ =~= ProtoConsts::QueryRequest.bytes());
    query_request(ctype, session, &cmds)
}

/// The login request to the switch at `switch_mac`: one record holding the
/// obfuscated secret.
pub fn login_request(source_mac: [u8; 6], switch_mac: [u8; 6], secret: &str) -> (r: Request)
    ensures
        r@.ctype == ProtoConsts::TransmitRequest.bytes(),
        r@.session.source_mac == source_mac@,
        r@.session.dest_mac == switch_mac@,
        r@.session.seq.len() == 2,
        r@.session.seq[0] == 0u8,
        r@.records == seq![
            RecordView {
                code: Cmd::CMD_Password.spec_code(),
                payload: xor_bytes(secret.spec_bytes(), obfuscation_key()),
            },
        ],
{
    let session = Session::new_random_seq(source_mac, switch_mac);
    let mut records: Vec<TypeLengthValue> = Vec::new();
    records.push(login_record(secret));
    let ctype: [u8; 2] = [0x01, 0x03];
    assert(ctype@ =~= ProtoConsts::TransmitRequest.bytes());
    let r = Request::new(ctype, session, records);
    assert(r@.records =~= seq![
        RecordView {
            code: Cmd::CMD_Password.spec_code(),
            payload: xor_bytes(secret.spec_bytes(), obfuscation_key()),
        },
    ]);
    r
}

/// The bulk query to the switch at `switch_mac`: every read-only command of
/// the registry, in registry order.
pub fn bulk_query_request(source_mac: [u8; 6], switch_mac: [u8; 6]) -> (r: Request)
    ensures
        r@.ctype == ProtoConsts::QueryRequest.bytes(),
        r@.session.source_mac == source_mac@,
        r@.session.dest_mac == switch_mac@,
        r@.session.seq.len() == 2,
        r@.session.seq[0] == 0u8,
        r@.records == query_records(bulk_query_cmds()),
{
    let cmds = Cmd::with_attributes(CmdAttributes::ReadOnly);
    let session = Session::new_random_seq(source_mac, switch_mac);
    let ctype: [u8; 2] = [0x01, 0x01];
    assert(ctype@ =~= ProtoConsts::QueryRequest.bytes());
    query_request(ctype, session, &cmds)
}

/// The text of the first record for `cmd`, when it is valid UTF-8.
fn text_field(resp: &Response, cmd: Cmd) -> (r: Option<String>)
    ensures
        match text_of(first_with_code(resp@.records, cmd.spec_code())) {
            Some(t) => r matches Some(s) && s@ == t,
            None => r is None,
        },
{
    match resp.get_cmd(cmd) {
        Ok(t) => match t.to_text() {
            Ok(s) => Some(s),
            Err(_) => None,
        },
        Err(_) => None,
    }
}

/// The switch that a discovery reply received from `address` describes.
pub fn device_from_reply(msg: &[u8], address: String) -> (r: Option<Switch>)
    ensures
        match switch_of(msg@, address@) {
            Some(s) => r matches Some(sw) && sw@ == s,
            None => r is None,
        },
{
    let resp = match Response::build(msg) {
        Ok(resp) => resp,
        Err(_) => {
            return None;
        },
    };
    let name = match text_field(&resp, Cmd::CMD_Name) {
        Some(t) => t,
        None => {
            return None;
        },
    };
    let model = match text_field(&resp, Cmd::CMD_Model) {
        Some(t) => t,
        None => {
            return None;
        },
    };
    let location = match text_field(&resp, Cmd::CMD_Location) {
        Some(t) => t,
        None => {
            return None;
        },
    };
    let ip = match resp.get_cmd(Cmd::CMD_IPv4) {
        Ok(t) => match t.to_ipv4() {
            Ok(a) => a,
            Err(_) => {
                return None;
            },
        },
        Err(_) => {
            return None;
        },
    };
    Some(
        Switch {
            name,
            model,
            location,
            ipv4_address_reported: ip,
            ipv4_address: address,
            mac_address: resp.get_session().get_switch_mac(),
        },
    )
}

/// What the transport reports after one receive.
pub enum RecvEvent {
    /// A datagram arrived from the given address.
    Received(Vec<u8>, String),
    /// Nothing arrived within the timeout.
    TimedOut,
}

/// The progress of one discovery.
pub struct DiscoveryView {
    pub attempts_left: nat,
    pub stopped: bool,
    pub found: Seq<SwitchView>,
}

/// The switches a reply adds: the one it describes, or none.
pub open spec fn found_in(s: Option<SwitchView>) -> Seq<SwitchView> {
    match s {
        Some(v) => seq![v],
        None => Seq::empty(),
    }
}

/// Gathers discovery replies. Each receive uses up one attempt; a timeout
/// ends the gathering, a reply that describes no switch is skipped.
pub struct Discovery {
    attempts_left: usize,
    stopped: bool,
    found: Vec<Switch>,
}

impl View for Discovery {
    type V = DiscoveryView;

    closed spec fn view(&self) -> DiscoveryView {
        DiscoveryView {
            attempts_left: self.attempts_left as nat,
            stopped: self.stopped,
            found: self.found@.map_values(|s: Switch| s@),
        }
    }
}

impl Discovery {
    pub fn new(attempts: usize) -> (r: Discovery)
        ensures
            r@ == (DiscoveryView { attempts_left: attempts as nat, stopped: false, found: Seq::empty() }),
    {
        let r = Discovery { attempts_left: attempts, stopped: false, found: Vec::new() };
        assert(r@.found =~= Seq::<SwitchView>::empty());
        r
    }

    /// Whether no more receives are wanted.
    pub fn is_finished(&self) -> (r: bool)
        ensures
            r == (self@.stopped || self@.attempts_left == 0),
    {
        self.stopped || self.attempts_left == 0
    }

    /// Takes in the outcome of one receive.
    pub fn on_event(&mut self, event: RecvEvent)
        requires
            !old(self)@.stopped,
            old(self)@.attempts_left > 0,
        ensures
            final(self)@.attempts_left == old(self)@.attempts_left - 1,
            match event {
                RecvEvent::TimedOut => final(self)@.stopped && final(self)@.found == old(self)@.found,
                RecvEvent::Received(b, a) => !final(self)@.stopped && final(self)@.found == old(
                    self,
                )@.found + found_in(switch_of(b@, a@)),
            },
    {
        self.attempts_left = self.attempts_left - 1;
        match event {
            RecvEvent::TimedOut => {
                self.stopped = true;
            },
            RecvEvent::Received(b, a) => {
                let ghost before = self@.found;
                let ghost expected = switch_of(b@, a@);
                match device_from_reply(b.as_slice(), a) {
                    Some(sw) => {
                        self.found.push(sw);
                        assert(self@.found =~= before + found_in(expected));
                    },
                    None => {
                        assert(self@.found =~= before + found_in(expected));
                    },
                }
            },
        }
    }

    /// The switches found, in the order their replies arrived.
    pub fn into_devices(self) -> (r: Vec<Switch>)
        ensures
            r@.map_values(|s: Switch| s@) == self@.found,
    {
        self.found
    }
}

/// Why a targeted exchange failed.
#[derive(Debug)]
pub enum ExchangeError {
    /// No reply arrived within the timeout.
    Timeout,
    /// The request could not be sent.
    TransportFailure,
    /// The reply could not be parsed.
    Malformed(TLVReadingError),
}

/// What the transport reports for one request of a targeted exchange.
pub enum Event {
    Reply(Vec<u8>),
    TimedOut,
    SendFailed,
}

/// Where a targeted exchange stands.
#[derive(Debug)]
pub enum TargetedState {
    /// The login request is due, or its reply awaited.
    AwaitingLogin,
    /// Login succeeded; the bulk query is due, or its reply awaited.
    AwaitingQuery,
    /// The bulk query's reply.
    Done(Response),
    Failed(ExchangeError),
}

/// What one event means for a request that expects one reply: the parsed
/// reply, or the failure.
pub fn reply_outcome(event: Event) -> (r: Result<Response, ExchangeError>)
    ensures
        match event {
            Event::SendFailed => r matches Err(ExchangeError::TransportFailure),
            Event::TimedOut => r matches Err(ExchangeError::Timeout),
            Event::Reply(b) => match parse(b@) {
                Some(m) => r matches Ok(resp) && resp@ == m,
                None => r matches Err(ExchangeError::Malformed(TLVReadingError::ArrTooShort(_))),
            },
        },
{
    match event {
        Event::SendFailed => Err(ExchangeError::TransportFailure),
        Event::TimedOut => Err(ExchangeError::Timeout),
        Event::Reply(b) => match Response::build(b.as_slice()) {
            Ok(resp) => Ok(resp),
            Err(e) => Err(ExchangeError::Malformed(e)),
        },
    }
}

/// The request a targeted exchange sends next, if any.
pub fn next_request(state: &TargetedState, source_mac: [u8; 6], switch_mac: [u8; 6], secret: &str) -> (r:
    Option<Request>)
    ensures
        match state {
            TargetedState::AwaitingLogin => r matches Some(req) && req@.ctype
                == ProtoConsts::TransmitRequest.bytes() && req@.session.source_mac == source_mac@
                && req@.session.dest_mac == switch_mac@ && req@.records == seq![
                RecordView {
                    code: Cmd::CMD_Password.spec_code(),
                    payload: xor_bytes(secret.spec_bytes(), obfuscation_key()),
                },
            ],
            TargetedState::AwaitingQuery => r matches Some(req) && req@.ctype
                == ProtoConsts::QueryRequest.bytes() && req@.session.source_mac == source_mac@
                && req@.session.dest_mac == switch_mac@
                && req@.records == query_records(bulk_query_cmds()),
            _ => r is None,
        },
{
    match state {
        TargetedState::AwaitingLogin => Some(login_request(source_mac, switch_mac, secret)),
        TargetedState::AwaitingQuery => Some(bulk_query_request(source_mac, switch_mac)),
        _ => None,
    }
}

/// The next state after the event that answered the pending request. A
/// failure at either step ends the exchange; there is no retry.
pub fn step(state: TargetedState, event: Event) -> (r: TargetedState)
    requires
        state is AwaitingLogin || state is AwaitingQuery,
    ensures
        match event {
            Event::SendFailed => r matches TargetedState::Failed(ExchangeError::TransportFailure),
            Event::TimedOut => r matches TargetedState::Failed(ExchangeError::Timeout),
            Event::Reply(b) => match parse(b@) {
                Some(m) => if state is AwaitingLogin {
                    r is AwaitingQuery
                } else {
                    r matches TargetedState::Done(resp) && resp@ == m
                },
                None => r matches TargetedState::Failed(
                    ExchangeError::Malformed(TLVReadingError::ArrTooShort(_)),
                ),
            },
        },
{
    let login = match state {
        TargetedState::AwaitingLogin => true,
        _ => false,
    };
    match reply_outcome(event) {
        Ok(resp) => if login {
            TargetedState::AwaitingQuery
        } else {
            TargetedState::Done(resp)
        },
        Err(e) => TargetedState::Failed(e),
    }
}

/// The codes a bulk query asks for are exactly those of the read-only
/// commands, whatever order the registry lists them in.
pub proof fn lemma_bulk_query_codes(code: (u8, u8))
    ensures
        (exists|i: int|
            0 <= i < query_records(bulk_query_cmds()).len() && #[trigger] query_records(
                bulk_query_cmds(),
            )[i].code == code) <==> (exists|c: Cmd|
            c.spec_attributes() == CmdAttributes::ReadOnly && #[trigger] c.spec_code() == code),
{
    let cmds = bulk_query_cmds();
    let recs = query_records(cmds);
    if exists|i: int| 0 <= i < recs.len() && #[trigger] recs[i].code == code {
        let i = choose|i: int| 0 <= i < recs.len() && #[trigger] recs[i].code == code;
        let c = cmds[i];
        assert(cmds.contains(c));
        crate::cmds::lemma_registry_with_exact(CmdAttributes::ReadOnly, c);
        assert(c.spec_code() == code);
    }
    if exists|c: Cmd| c.spec_attributes() == CmdAttributes::ReadOnly && #[trigger] c.spec_code()
        == code {
        let c = choose|c: Cmd|
            c.spec_attributes() == CmdAttributes::ReadOnly && #[trigger] c.spec_code() == code;
        crate::cmds::lemma_registry_with_exact(CmdAttributes::ReadOnly, c);
        let j = choose|j: int| 0 <= j < cmds.len() && cmds[j] == c;
        assert(recs[j].code == code);
    }
}

} // verus!
