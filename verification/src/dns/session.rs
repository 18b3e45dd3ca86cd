//! One exchange with a server: the query to send, and the state machine
//! that says what to do next on each event. Sockets are the caller's.

use vstd::prelude::*;
use vstd::utf8::encode_utf8;
use rand::distributions::Uniform;
use rand::Rng;
use crate::dns::codes::{DomainClass, OpCode, QueryType};
use crate::dns::error::EncodeError;
use crate::dns::header::DnsHeader;
use crate::dns::name::spec_encode_name;
use crate::dns::packet::{spec_serialize_questions, DnsPacket, PacketView};
use crate::dns::question::{DnsQuestion, QuestionView};
use crate::fuzzy::{same_ignoring_case, spec_same_ignoring_case};

verus! {

/// How often a failed bind is tried again with another port.
pub const MAX_PORT_SELECT_ATTEMPTS: usize = 15;

/// The lowest local port that a query is sent from.
pub const EPHEMERAL_PORT_LOW: u16 = 49152;

/// The bound above the local ports that a query is sent from.
pub const EPHEMERAL_PORT_HIGH: u16 = 65535;

/// The port of the server that queries go to.
pub const SERVER_PORT: u16 = 53;

/// The seconds after which a send or a receive is given up.
pub const TIMEOUT_SECS: u64 = 5;

/// The size of the buffer that a reply is received into.
pub const RESPONSE_BUFFER_LEN: usize = 512;

/// `rand::Rng::gen::<u16>` on the thread's generator: any 16-bit value.
#[verifier::external_body]
fn random_u16() -> u16 {
    rand::thread_rng().gen::<u16>()
}

/// `rand::Rng::sample` of `rand::distributions::Uniform::<u16>::new(low,
/// high)` on the thread's generator: a value of the half-open range from
/// `low` to `high`, which must not be empty.
#[verifier::external_body]
fn random_between(low: u16, high: u16) -> (r: u16)
    requires
        low < high,
    ensures
        low <= r < high,
{
    rand::thread_rng().sample(Uniform::<u16>::new(low, high))
}

/// The type that a query is asked for by name: `A`, `CNAME`, `MX`, `NS` and
/// `TXT` can be asked for, in upper or lower case.
pub open spec fn spec_requested_type(name: Seq<char>) -> Option<QueryType> {
    if spec_same_ignoring_case(name, "A"@) {
        Some(QueryType::A)
    } else if spec_same_ignoring_case(name, "CNAME"@) {
        Some(QueryType::CNAME)
    } else if spec_same_ignoring_case(name, "MX"@) {
        Some(QueryType::MX)
    } else if spec_same_ignoring_case(name, "NS"@) {
        Some(QueryType::NS)
    } else if spec_same_ignoring_case(name, "TXT"@) {
        Some(QueryType::TXT)
    } else {
        None
    }
}

/// Finds the type that a query is asked for by name, or nothing where no
/// query can be asked for by that name.
pub fn requested_type(name: &str) -> (r: Option<QueryType>)
    ensures
        r == spec_requested_type(name@),
{
    if same_ignoring_case(name, "A") {
        Some(QueryType::A)
    } else if same_ignoring_case(name, "CNAME") {
        Some(QueryType::CNAME)
    } else if same_ignoring_case(name, "MX") {
        Some(QueryType::MX)
    } else if same_ignoring_case(name, "NS") {
        Some(QueryType::NS)
    } else if same_ignoring_case(name, "TXT") {
        Some(QueryType::TXT)
    } else {
        None
    }
}

/// The query for one name as a mathematical value: recursion is asked for,
/// the one question is of class `Internet`, and a reverse lookup goes out as
/// an inverse query.
pub open spec fn spec_query(
    request_id: u16,
    domain: Seq<char>,
    qtype: QueryType,
    reverse: bool,
) -> PacketView {
    PacketView {
        header: DnsHeader {
            request_id,
            is_response: false,
            opcode: if reverse {
                OpCode::Inverse
            } else {
                OpCode::Standard
            },
            authoritative_answer: false,
            message_truncated: false,
            recursion_desired: true,
            recursion_available: false,
            rcode: crate::dns::codes::ResponseCode::NoError,
            query_count: 1,
            answer_count: 0,
            nameserver_count: 0,
            additional_count: 0,
        },
        questions: seq![
            QuestionView { domain_name: domain, query_type: qtype, query_class: DomainClass::Internet },
        ],
        answers: Seq::empty(),
        authorities: Seq::empty(),
        additionals: Seq::empty(),
    }
}

/// Builds the query for one name.
pub fn build_query(request_id: u16, domain: &str, qtype: QueryType, reverse: bool) -> (packet:
    DnsPacket)
    ensures
        packet@ == spec_query(request_id, domain@, qtype, reverse),
{
    let mut request = DnsPacket::default();
    request.header.request_id = request_id;
    request.header.recursion_desired = true;
    if reverse {
        request.header.opcode = OpCode::Inverse;
    }
    request.header.query_count = 1;
    let question = DnsQuestion {
        domain_name: domain.to_owned(),
        query_type: qtype,
        query_class: DomainClass::Internet,
    };
    request.questions.push(question);
    proof {
        assert(request@.questions =~= spec_query(request_id, domain@, qtype, reverse).questions);
        assert(request@.answers =~= Seq::<crate::dns::record::RecordView>::empty());
        assert(request@.authorities =~= Seq::<crate::dns::record::RecordView>::empty());
        assert(request@.additionals =~= Seq::<crate::dns::record::RecordView>::empty());
    }
    request
}

/// Builds the query for one name under a request id drawn at random, and
/// returns it with its wire form.
///
/// Fails with `LabelTooLong` exactly where a label of the name has more than
/// 255 bytes; nothing is to be sent then.
pub fn new_query(domain: &str, qtype: QueryType, reverse: bool) -> (r: Result<
    (DnsPacket, Vec<u8>),
    EncodeError,
>)
    ensures
        match r {
            Ok((packet, bytes)) => packet@ == spec_query(
                packet.header.request_id,
                domain@,
                qtype,
                reverse,
            ) && packet@.spec_serialize() == Ok::<Seq<u8>, EncodeError>(bytes@),
            Err(e) => spec_encode_name(encode_utf8(domain@)) == Err::<Seq<u8>, EncodeError>(e),
        },
{
    let request = build_query(random_u16(), domain, qtype, reverse);
    let mut bytes: Vec<u8> = Vec::new();
    match request.serialize(&mut bytes) {
        Ok(()) => {
            proof {
                assert(bytes@ =~= request@.spec_serialize()->Ok_0);
            }
            Ok((request, bytes))
        },
        Err(e) => {
            proof {
                let questions = request@.questions;
                assert(questions.drop_first().len() == 0);
                assert(spec_serialize_questions(questions.drop_first()) is Ok);
                assert(questions[0].domain_name == domain@);
            }
            Err(e)
        },
    }
}

/// An address and port that datagrams go to or come from.
#[derive(Clone, Copy, Debug, PartialEq, Eq, Structural)]
pub enum Endpoint {
    /// An IPv4 address, by its four bytes, and a port.
    V4 { a: u8, b: u8, c: u8, d: u8, port: u16 },
    /// An IPv6 address with its port, flow information and scope.
    V6 { ip: u128, port: u16, flowinfo: u32, scope_id: u32 },
}

/// Tells whether a datagram that came from `source` is the reply of the
/// server at `server`: it is where the two are exactly the same, the port
/// and, for IPv6, flow information and scope included.
pub fn is_from_server(source: Endpoint, server: Endpoint) -> (r: bool)
    ensures
        r == (source == server),
{
    source == server
}

/// Where one exchange with a server stands.
#[derive(Clone, Copy, Debug, PartialEq, Eq, Structural)]
pub enum SessionState {
    /// Nothing has been done yet.
    Idle,
    /// On the way from `Idle` to `PortBound`: a bind to a local port is under
    /// way, and `retries` binds have failed before it.
    Binding { retries: usize },
    /// The socket is bound; the query is being sent.
    PortBound,
    /// The query is out; a datagram is being received.
    Sent,
    /// A datagram has come in; its source is being checked.
    AwaitingReply,
    /// The datagram came from the server that was asked; it is being decoded
    /// and rendered.
    Validated,
    /// The reply has been rendered: the exchange is over.
    Rendered,
    /// The exchange has failed for good.
    Failed,
}

/// What the outside world reports to the session.
#[derive(Clone, Copy, Debug, PartialEq, Eq, Structural)]
pub enum SessionEvent {
    /// The exchange is to begin.
    Start,
    /// The bind that was asked for has failed.
    BindFailed,
    /// The bind that was asked for has succeeded.
    Bound,
    /// The query could not be sent.
    SendFailed,
    /// The query has been sent.
    Sent,
    /// Nothing was received: a timeout or another error.
    ReceiveFailed,
    /// A datagram has been received.
    Received,
    /// The datagram's source has been compared with the address that the
    /// query went to; `from_server` tells whether the two are exactly the
    /// same, as `is_from_server` finds.
    SourceChecked { from_server: bool },
    /// The reply could not be decoded.
    DecodeFailed,
    /// The reply has been decoded and rendered.
    RenderDone,
}

/// Why an exchange failed.
#[derive(Clone, Copy, Debug, PartialEq, Eq, Structural)]
pub enum SessionFailure {
    /// No local port could be bound within the allowed retries.
    BindExhausted,
    /// The query could not be sent.
    SendFailed,
    /// No reply came in time, or receiving failed otherwise.
    ReceiveFailed,
    /// A datagram came from another address than the server's.
    UnexpectedSource,
    /// The reply could not be decoded.
    DecodeFailed,
    /// An event came that the state does not expect.
    UnexpectedEvent,
}

/// What the session asks the outside world to do next.
#[derive(Clone, Copy, Debug, PartialEq, Eq, Structural)]
pub enum SessionAction {
    /// Bind a UDP socket to the wildcard address and this port.
    Bind { port: u16 },
    /// Set the read and the write timeout, then send the query to the server
    /// at `port`.
    Send { timeout_secs: u64, port: u16 },
    /// Receive one datagram into a buffer of `capacity` bytes.
    Receive { capacity: usize },
    /// Compare the datagram's source with the address the query went to.
    CheckSource,
    /// Decode and render the datagram that was received.
    Process,
    /// Nothing is left to do.
    Finish,
    /// Give up, for this reason.
    Fail(SessionFailure),
}

/// The state and the action that follow from a state and an event. `port` is
/// the local port to try where a bind is asked for.
///
/// A failure to bind is answered with another bind until
/// `MAX_PORT_SELECT_ATTEMPTS` of them have been retried. Every other failure,
/// a reply from another source among them, ends the exchange. An event that
/// the state does not expect ends it too, and nothing leads out of `Rendered`
/// or `Failed`.
pub open spec fn spec_step(state: SessionState, event: SessionEvent, port: u16) -> (
    SessionState,
    SessionAction,
) {
    match (state, event) {
        (SessionState::Idle, SessionEvent::Start) => (
            SessionState::Binding { retries: 0 },
            SessionAction::Bind { port },
        ),
        (SessionState::Binding { retries }, SessionEvent::BindFailed) => if retries
            >= MAX_PORT_SELECT_ATTEMPTS {
            (SessionState::Failed, SessionAction::Fail(SessionFailure::BindExhausted))
        } else {
            (
                SessionState::Binding { retries: (retries + 1) as usize },
                SessionAction::Bind { port },
            )
        },
        (SessionState::Binding { retries }, SessionEvent::Bound) => (
            SessionState::PortBound,
            SessionAction::Send { timeout_secs: TIMEOUT_SECS, port: SERVER_PORT },
        ),
        (SessionState::PortBound, SessionEvent::SendFailed) => (
            SessionState::Failed,
            SessionAction::Fail(SessionFailure::SendFailed),
        ),
        (SessionState::PortBound, SessionEvent::Sent) => (
            SessionState::Sent,
            SessionAction::Receive { capacity: RESPONSE_BUFFER_LEN },
        ),
        (SessionState::Sent, SessionEvent::ReceiveFailed) => (
            SessionState::Failed,
            SessionAction::Fail(SessionFailure::ReceiveFailed),
        ),
        (SessionState::Sent, SessionEvent::Received) => (
            SessionState::AwaitingReply,
            SessionAction::CheckSource,
        ),
        (SessionState::AwaitingReply, SessionEvent::SourceChecked { from_server }) => if from_server {
            (SessionState::Validated, SessionAction::Process)
        } else {
            (SessionState::Failed, SessionAction::Fail(SessionFailure::UnexpectedSource))
        },
        (SessionState::Validated, SessionEvent::DecodeFailed) => (
            SessionState::Failed,
            SessionAction::Fail(SessionFailure::DecodeFailed),
        ),
        (SessionState::Validated, SessionEvent::RenderDone) => (
            SessionState::Rendered,
            SessionAction::Finish,
        ),
        (SessionState::Rendered, _) => (SessionState::Rendered, SessionAction::Finish),
        _ => (SessionState::Failed, SessionAction::Fail(SessionFailure::UnexpectedEvent)),
    }
}

/// Computes the state and the action that follow from a state and an event,
/// with `port` as the local port to try where a bind is asked for.
pub fn step(state: SessionState, event: SessionEvent, port: u16) -> (r: (
    SessionState,
    SessionAction,
))
    ensures
        r == spec_step(state, event, port),
{
    match (state, event) {
        (SessionState::Idle, SessionEvent::Start) => (
            SessionState::Binding { retries: 0 },
            SessionAction::Bind { port },
        ),
        (SessionState::Binding { retries }, SessionEvent::BindFailed) => {
            if retries >= MAX_PORT_SELECT_ATTEMPTS {
                (SessionState::Failed, SessionAction::Fail(SessionFailure::BindExhausted))
            } else {
                (SessionState::Binding { retries: retries + 1 }, SessionAction::Bind { port })
            }
        },
        (SessionState::Binding { retries: _ }, SessionEvent::Bound) => (
            SessionState::PortBound,
            SessionAction::Send { timeout_secs: TIMEOUT_SECS, port: SERVER_PORT },
        ),
        (SessionState::PortBound, SessionEvent::SendFailed) => (
            SessionState::Failed,
            SessionAction::Fail(SessionFailure::SendFailed),
        ),
        (SessionState::PortBound, SessionEvent::Sent) => (
            SessionState::Sent,
            SessionAction::Receive { capacity: RESPONSE_BUFFER_LEN },
        ),
        (SessionState::Sent, SessionEvent::ReceiveFailed) => (
            SessionState::Failed,
            SessionAction::Fail(SessionFailure::ReceiveFailed),
        ),
        (SessionState::Sent, SessionEvent::Received) => (
            SessionState::AwaitingReply,
            SessionAction::CheckSource,
        ),
        (SessionState::AwaitingReply, SessionEvent::SourceChecked { from_server }) => {
            if from_server {
                (SessionState::Validated, SessionAction::Process)
            } else {
                (SessionState::Failed, SessionAction::Fail(SessionFailure::UnexpectedSource))
            }
        },
        (SessionState::Validated, SessionEvent::DecodeFailed) => (
            SessionState::Failed,
            SessionAction::Fail(SessionFailure::DecodeFailed),
        ),
        (SessionState::Validated, SessionEvent::RenderDone) => (
            SessionState::Rendered,
            SessionAction::Finish,
        ),
        (SessionState::Rendered, _) => (SessionState::Rendered, SessionAction::Finish),
        _ => (SessionState::Failed, SessionAction::Fail(SessionFailure::UnexpectedEvent)),
    }
}

/// A port is one that queries are sent from.
pub open spec fn is_ephemeral(port: u16) -> bool {
    EPHEMERAL_PORT_LOW <= port < EPHEMERAL_PORT_HIGH
}

/// Moves the exchange on by one event: the state becomes the one that
/// `spec_step` gives, and the action it gives is returned. Where that action
/// is a bind, its port is drawn at random from the ephemeral ports.
pub fn advance(state: &mut SessionState, event: SessionEvent) -> (action: SessionAction)
    ensures
        exists|port: u16|
            is_ephemeral(port) && (*final(state), action) == #[trigger] spec_step(
                *old(state),
                event,
                port,
            ),
        action matches SessionAction::Bind { port } ==> is_ephemeral(port),
{
    let port = random_between(EPHEMERAL_PORT_LOW, EPHEMERAL_PORT_HIGH);
    let (next, action) = step(*state, event, port);
    *state = next;
    action
}

/// The retries of a bind never pass the cap: from a state within it, every
/// event leads to a state within it.
pub open spec fn within_cap(state: SessionState) -> bool {
    state matches SessionState::Binding { retries } ==> retries <= MAX_PORT_SELECT_ATTEMPTS
}

/// How far an exchange has come, `Failed` aside: each state's place on the
/// way from `Idle` to `Rendered`.
pub open spec fn progress(state: SessionState) -> int {
    match state {
        SessionState::Idle => 0,
        SessionState::Binding { retries } => 1,
        SessionState::PortBound => 2,
        SessionState::Sent => 3,
        SessionState::AwaitingReply => 4,
        SessionState::Validated => 5,
        SessionState::Rendered => 6,
        SessionState::Failed => 7,
    }
}

/// Invariants of the exchange, for every state within the cap, every event
/// and every port: the next state is within the cap; an exchange never goes
/// back, and moves on by one state at most unless it fails; a failure is
/// final; a datagram is processed only once its source has been found to be
/// the server; and the action is a failure exactly where the next state is
/// `Failed`.
pub proof fn lemma_step_invariants(state: SessionState, event: SessionEvent, port: u16)
    requires
        within_cap(state),
    ensures
        within_cap(spec_step(state, event, port).0),
        progress(spec_step(state, event, port).0) >= progress(state),
        spec_step(state, event, port).0 != SessionState::Failed ==> progress(
            spec_step(state, event, port).0,
        ) <= progress(state) + 1,
        state == SessionState::Failed ==> spec_step(state, event, port).0 == SessionState::Failed,
        spec_step(state, event, port).1 == SessionAction::Process ==> state
            == SessionState::AwaitingReply && event == (SessionEvent::SourceChecked {
            from_server: true,
        }),
        spec_step(state, event, port).1 is Fail <==> spec_step(state, event, port).0
            == SessionState::Failed,
{
}

} // verus!
