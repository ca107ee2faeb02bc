//! Control-plane data model: message types, test parameters, direction and
//! role gating, and the library's error taxonomy.
//!
//! Every control message travels as a 6-byte header (2-byte big-endian type
//! id, 4-byte big-endian body length) followed by a JSON body; the codec
//! module handles the bytes, this module holds the values.

use vstd::prelude::*;

use crate::units::BasePreference;
use crate::units::SizePreference;

verus! {

/// Size of the fixed wire header: 2 bytes of type id, 4 bytes of body length.
pub const CONTROL_MSG_SIZE: usize = 6;

/// A decoded wire header: the message's type tag carrying the declared body
/// length in bytes.
#[derive(Debug, Clone, Copy, PartialEq, Eq, Structural)]
pub enum MessageType {
    NewTest(usize),
    CancelTest(usize),
    MsgError(usize),
    TestAssociation(usize),
    Close(usize),
}

/// The fixed wire ids of the message types.
pub struct MessageID;

impl MessageID {
    pub const NEW_TEST_MESSAGE: u16 = 0x0;
    pub const CANCEL_TEST_MESSAGE: u16 = 0x1;
    pub const MSG_ERROR_MESSAGE: u16 = 0x2;
    pub const TEST_ASSOCIATION_MESSAGE: u16 = 0x3;
    pub const CLOSE_MESSAGE: u16 = 0xFFFF;
}

/// The message type a wire id decodes to: the closed set of known ids, or
/// `InvalidMessageType` for everything else.
pub open spec fn message_type_of(id: u16, len: usize) -> Result<MessageType, NBError> {
    if id == 0x0 {
        Ok(MessageType::NewTest(len))
    } else if id == 0x1 {
        Ok(MessageType::CancelTest(len))
    } else if id == 0x2 {
        Ok(MessageType::MsgError(len))
    } else if id == 0x3 {
        Ok(MessageType::TestAssociation(len))
    } else if id == 0xFFFF {
        Ok(MessageType::Close(len))
    } else {
        Err(NBError::InvalidMessageType(id))
    }
}

impl MessageType {
    pub fn new(id: u16, len: usize) -> (r: Result<MessageType, NBError>)
        ensures
            r == message_type_of(id, len),
    {
        match id {
            0x0 => Ok(MessageType::NewTest(len)),
            0x1 => Ok(MessageType::CancelTest(len)),
            0x2 => Ok(MessageType::MsgError(len)),
            0x3 => Ok(MessageType::TestAssociation(len)),
            0xFFFF => Ok(MessageType::Close(len)),
            _ => Err(NBError::InvalidMessageType(id)),
        }
    }
}

#[derive(Debug, Clone, Copy, PartialEq, Eq, Structural)]
pub enum Direction {
    ClientToServer,
    ServerToClient,
    Bidirectional,
}

/// Parameters of the one stream protocol with data-plane behaviour.
#[derive(Debug, Clone, Copy, PartialEq, Eq, Structural)]
pub struct TCPTestInfo {
    pub recv_buf_size: u64,
    pub send_buf_size: u64,
}

/// The protocol a test runs over.  Only the stream variant carries
/// parameters and has data-plane behaviour; the others are stubs.
#[derive(Debug, Clone, Copy, PartialEq, Eq, Structural)]
#[allow(clippy::upper_case_acronyms)]
pub enum Protocol {
    TCP(TCPTestInfo),
    UDP,
    DCCP,
    SCTP,
}

#[derive(Debug, Clone, Copy, PartialEq, Eq, Structural)]
pub enum Role {
    Client,
    Server,
}

/// A span of time as whole seconds plus a sub-second nanosecond part.
#[derive(Debug, Clone, Copy, PartialEq, Eq, Structural)]
pub struct TestDuration {
    pub secs: u64,
    pub nanos: u32,
}

impl TestDuration {
    /// A well-formed span keeps the nanosecond part below one second.
    pub open spec fn wf(self) -> bool {
        self.nanos < 1000000000
    }
}

/// When a test ends: after a wall-clock duration, or after a byte count.
/// Only the time variant is enforced by the data-plane loop.
#[derive(Debug, Clone, Copy, PartialEq, Eq, Structural)]
pub enum EndCondition {
    Time(TestDuration),
    Bytes(u64),
}

/// Announcement of a new test, sent once over the control connection.  The
/// code is a 256-bit nonce: the only binding between this announcement and
/// the data connection that follows.
#[derive(Debug, Clone, Copy, PartialEq, Eq)]
pub struct NewTestMessage {
    pub direction: Direction,
    pub protocol: Protocol,
    pub bw: u64,
    pub code: [u8; 32],
    pub end_condition: EndCondition,
}

/// Sent as the first bytes of a freshly opened data connection to claim the
/// announced test with the matching code.
#[derive(Debug, Clone, Copy, PartialEq, Eq)]
pub struct TestAssociationMessage {
    pub code: [u8; 32],
}

/// Relies on rand::random: fills a 32-byte array from the thread-local
/// generator.  Nothing is promised of the value.
#[verifier::external_body]
fn random_code() -> (r: [u8; 32]) {
    rand::random()
}

impl NewTestMessage {
    /// Builds an announcement with a freshly drawn association code.
    pub fn generate(
        direction: Direction,
        protocol: Protocol,
        bw: u64,
        end_condition: EndCondition,
    ) -> (m: NewTestMessage)
        ensures
            m.direction == direction,
            m.protocol == protocol,
            m.bw == bw,
            m.end_condition == end_condition,
    {
        NewTestMessage { direction, protocol, bw, code: random_code(), end_condition }
    }

    /// The association message that claims this test.
    pub fn association(&self) -> (r: TestAssociationMessage)
        ensures
            r.code@ == self.code@,
    {
        TestAssociationMessage { code: self.code }
    }
}

/// Exact byte-for-byte equality of two association codes.
pub fn codes_equal(a: &[u8; 32], b: &[u8; 32]) -> (r: bool)
    ensures
        r == (a@ == b@),
{
    let mut i: usize = 0;
    while i < 32
        invariant
            i <= 32,
            forall|j: int| 0 <= j < i ==> a@[j] == b@[j],
        decreases 32 - i,
    {
        if a[i] != b[i] {
            return false;
        }
        i = i + 1;
    }
    proof {
        assert(a@ =~= b@);
    }
    true
}

/// Errors of the control protocol and the rate limiter.
#[derive(Debug, Clone, Copy)]
pub enum NBError {
    ConnectionClosed,
    InvalidMessageType(u16),
    NotConnected,
    BucketEmpty,
    ParseSuffixError(&'static str),
    ConversionError(u64, &'static str),
}

/// Display and file-output preferences shared by client and server.
#[derive(Debug)]
pub struct CommonConfig {
    pub format: SizePreference,
    pub base: BasePreference,
    pub file: Option<String>,
}

/// Whether a peer in this role sends test traffic under this direction.
pub open spec fn send_allowed(direction: Direction, role: Role) -> bool {
    ||| direction == Direction::Bidirectional
    ||| (direction == Direction::ClientToServer && role == Role::Client)
    ||| (direction == Direction::ServerToClient && role == Role::Server)
}

/// Whether a peer in this role receives test traffic under this direction.
pub open spec fn recv_allowed(direction: Direction, role: Role) -> bool {
    ||| direction == Direction::Bidirectional
    ||| (direction == Direction::ClientToServer && role == Role::Server)
    ||| (direction == Direction::ServerToClient && role == Role::Client)
}

pub fn should_send(direction: Direction, role: Role) -> (r: bool)
    ensures
        r == send_allowed(direction, role),
{
    match direction {
        Direction::ClientToServer if role == Role::Client => true,
        Direction::ServerToClient if role == Role::Server => true,
        Direction::Bidirectional => true,
        _ => false,
    }
}

pub fn should_recv(direction: Direction, role: Role) -> (r: bool)
    ensures
        r == recv_allowed(direction, role),
{
    match direction {
        Direction::Bidirectional => true,
        _ => !should_send(direction, role),
    }
}

/// On every direction and role, exactly the table's combinations send, and
/// a one-directional flow is received exactly on the opposite side.
pub proof fn lemma_direction_role_table(direction: Direction, role: Role)
    ensures
        send_allowed(Direction::ClientToServer, Role::Client),
        !send_allowed(Direction::ClientToServer, Role::Server),
        !send_allowed(Direction::ServerToClient, Role::Client),
        send_allowed(Direction::ServerToClient, Role::Server),
        send_allowed(Direction::Bidirectional, role),
        !recv_allowed(Direction::ClientToServer, Role::Client),
        recv_allowed(Direction::ClientToServer, Role::Server),
        recv_allowed(Direction::ServerToClient, Role::Client),
        !recv_allowed(Direction::ServerToClient, Role::Server),
        recv_allowed(Direction::Bidirectional, role),
        direction != Direction::Bidirectional ==> (recv_allowed(direction, role)
            <==> !send_allowed(direction, role)),
{
}

} // verus!
