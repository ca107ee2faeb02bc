//! Wire codec for the control protocol.
//!
//! Every control message travels as `[2-byte big-endian type id][4-byte
//! big-endian body length][JSON body]`.  The body grammar is fixed here:
//! camelCase keys in a fixed order, no whitespace, numbers in canonical
//! decimal.  `enc_new_test`/`enc_assoc` are the canonical encodings;
//! `parse_new_test`/`parse_assoc` read them back (tolerating only leading
//! zeros in numbers beyond the canonical form), and the round-trip lemmas
//! prove decode-of-encode is the identity.

pub mod lits;
pub mod num;
pub mod proofs;

use vstd::prelude::*;

use crate::codec::lits::parse_lit;
use crate::codec::lits::eat_lit;
use crate::codec::lits::push_lit;
use crate::codec::lits::l_dir_key;
use crate::codec::lits::l_c2s;
use crate::codec::lits::l_s2c;
use crate::codec::lits::l_bidi;
use crate::codec::lits::l_proto_key;
use crate::codec::lits::l_udp;
use crate::codec::lits::l_dccp;
use crate::codec::lits::l_sctp;
use crate::codec::lits::l_tcp_open;
use crate::codec::lits::l_send_key;
use crate::codec::lits::l_double_close;
use crate::codec::lits::l_bw_key;
use crate::codec::lits::l_code_key;
use crate::codec::lits::l_end_key;
use crate::codec::lits::l_time_open;
use crate::codec::lits::l_nanos_key;
use crate::codec::lits::l_bytes_open;
use crate::codec::lits::l_close;
use crate::codec::lits::l_comma;
use crate::codec::lits::l_assoc_open;
use crate::codec::lits::l_assoc_close;
use crate::codec::lits::lit_dir_key;
use crate::codec::lits::lit_c2s;
use crate::codec::lits::lit_s2c;
use crate::codec::lits::lit_bidi;
use crate::codec::lits::lit_proto_key;
use crate::codec::lits::lit_udp;
use crate::codec::lits::lit_dccp;
use crate::codec::lits::lit_sctp;
use crate::codec::lits::lit_tcp_open;
use crate::codec::lits::lit_send_key;
use crate::codec::lits::lit_double_close;
use crate::codec::lits::lit_bw_key;
use crate::codec::lits::lit_code_key;
use crate::codec::lits::lit_end_key;
use crate::codec::lits::lit_time_open;
use crate::codec::lits::lit_nanos_key;
use crate::codec::lits::lit_bytes_open;
use crate::codec::lits::lit_close;
use crate::codec::lits::lit_comma;
use crate::codec::lits::lit_assoc_open;
use crate::codec::lits::lit_assoc_close;
use crate::codec::num::dec_digits;
use crate::codec::num::parse_u64_at;
use crate::codec::num::parse_number;
use crate::codec::num::push_dec;
use crate::messages::Direction;
use crate::messages::EndCondition;
use crate::messages::MessageType;
use crate::messages::NBError;
use crate::messages::NewTestMessage;
use crate::messages::Protocol;
use crate::messages::TCPTestInfo;
use crate::messages::TestAssociationMessage;
use crate::messages::TestDuration;
use crate::messages::message_type_of;
use crate::messages::CONTROL_MSG_SIZE;
use crate::messages::MessageID;

verus! {

/// The spec-level shape of a `NewTestMessage`: the same fields with the
/// code as a byte sequence.
pub struct NewTestModel {
    pub direction: Direction,
    pub protocol: Protocol,
    pub bw: u64,
    pub code: Seq<u8>,
    pub end_condition: EndCondition,
}

/// What a message value stands for.
pub open spec fn model_of(m: NewTestMessage) -> NewTestModel {
    NewTestModel {
        direction: m.direction,
        protocol: m.protocol,
        bw: m.bw,
        code: m.code@,
        end_condition: m.end_condition,
    }
}

/// Canonical encoding of a direction.
pub open spec fn enc_dir(d: Direction) -> Seq<u8> {
    match d {
        Direction::ClientToServer => l_c2s(),
        Direction::ServerToClient => l_s2c(),
        Direction::Bidirectional => l_bidi(),
    }
}

/// Canonical encoding of a protocol variant.
pub open spec fn enc_proto(p: Protocol) -> Seq<u8> {
    match p {
        Protocol::TCP(info) => l_tcp_open() + (dec_digits(info.recv_buf_size as nat) + (
        l_send_key() + (dec_digits(info.send_buf_size as nat) + l_double_close()))),
        Protocol::UDP => l_udp(),
        Protocol::DCCP => l_dccp(),
        Protocol::SCTP => l_sctp(),
    }
}

/// Canonical encoding of an end condition.
pub open spec fn enc_end(e: EndCondition) -> Seq<u8> {
    match e {
        EndCondition::Time(d) => l_time_open() + (dec_digits(d.secs as nat) + (l_nanos_key()
            + (dec_digits(d.nanos as nat) + l_double_close()))),
        EndCondition::Bytes(n) => l_bytes_open() + (dec_digits(n as nat) + l_close()),
    }
}

/// The comma-prefixed encoding of the code bytes from position `i` on.
pub open spec fn enc_code_tail(code: Seq<u8>, i: int) -> Seq<u8>
    decreases code.len() - i,
{
    if i < 0 || i >= code.len() {
        Seq::empty()
    } else {
        l_comma() + (dec_digits(code[i] as nat) + enc_code_tail(code, i + 1))
    }
}

/// The JSON array elements of the code: decimal values separated by
/// commas.
pub open spec fn enc_code(code: Seq<u8>) -> Seq<u8> {
    if code.len() == 0 {
        Seq::empty()
    } else {
        dec_digits(code[0] as nat) + enc_code_tail(code, 1)
    }
}

/// Canonical body of a `NewTestMessage`.
pub open spec fn enc_new_test(m: NewTestModel) -> Seq<u8> {
    l_dir_key() + (enc_dir(m.direction) + (l_proto_key() + (enc_proto(m.protocol) + (
    l_bw_key() + (dec_digits(m.bw as nat) + (l_code_key() + (enc_code(m.code) + (l_end_key()
        + (enc_end(m.end_condition) + l_close())))))))))
}

/// Canonical body of a `TestAssociationMessage`.
pub open spec fn enc_assoc(code: Seq<u8>) -> Seq<u8> {
    l_assoc_open() + (enc_code(code) + l_assoc_close())
}

/// Appends the code elements from `i` on, each preceded by a comma.
fn push_code_tail(out: &mut Vec<u8>, code: &[u8; 32], i: usize)
    requires
        i <= 32,
    ensures
        final(out)@ == old(out)@ + enc_code_tail(code@, i as int),
    decreases 32 - i,
{
    if i < 32 {
        let comma = lit_comma();
        push_lit(out, &comma);
        push_dec(out, code[i] as u64);
        push_code_tail(out, code, i + 1);
        proof {
            assert(out@ =~= old(out)@ + enc_code_tail(code@, i as int));
        }
    } else {
        proof {
            assert(out@ =~= old(out)@ + enc_code_tail(code@, i as int));
        }
    }
}

/// Appends the canonical encoding of a protocol variant.
fn push_proto(out: &mut Vec<u8>, protocol: &Protocol)
    ensures
        final(out)@ == old(out)@ + enc_proto(*protocol),
{
    match protocol {
        Protocol::TCP(info) => {
            let l = lit_tcp_open();
            push_lit(out, &l);
            push_dec(out, info.recv_buf_size);
            let l = lit_send_key();
            push_lit(out, &l);
            push_dec(out, info.send_buf_size);
            let l = lit_double_close();
            push_lit(out, &l);
            proof {
                assert(out@ =~= old(out)@ + enc_proto(*protocol));
            }
        },
        Protocol::UDP => {
            let l = lit_udp();
            push_lit(out, &l);
        },
        Protocol::DCCP => {
            let l = lit_dccp();
            push_lit(out, &l);
        },
        Protocol::SCTP => {
            let l = lit_sctp();
            push_lit(out, &l);
        },
    }
}

/// Appends the canonical encoding of an end condition.
fn push_end(out: &mut Vec<u8>, end_condition: &EndCondition)
    ensures
        final(out)@ == old(out)@ + enc_end(*end_condition),
{
    match end_condition {
        EndCondition::Time(d) => {
            let l = lit_time_open();
            push_lit(out, &l);
            push_dec(out, d.secs);
            let l = lit_nanos_key();
            push_lit(out, &l);
            push_dec(out, d.nanos as u64);
            let l = lit_double_close();
            push_lit(out, &l);
            proof {
                assert(out@ =~= old(out)@ + enc_end(*end_condition));
            }
        },
        EndCondition::Bytes(n) => {
            let l = lit_bytes_open();
            push_lit(out, &l);
            push_dec(out, *n);
            let l = lit_close();
            push_lit(out, &l);
            proof {
                assert(out@ =~= old(out)@ + enc_end(*end_condition));
            }
        },
    }
}

/// Appends the canonical encoding of a direction.
fn push_dir(out: &mut Vec<u8>, direction: Direction)
    ensures
        final(out)@ == old(out)@ + enc_dir(direction),
{
    match direction {
        Direction::ClientToServer => {
            let l = lit_c2s();
            push_lit(out, &l);
        },
        Direction::ServerToClient => {
            let l = lit_s2c();
            push_lit(out, &l);
        },
        Direction::Bidirectional => {
            let l = lit_bidi();
            push_lit(out, &l);
        },
    }
}

/// Appends the full code array: first element, then the comma-prefixed
/// rest.
fn push_code(out: &mut Vec<u8>, code: &[u8; 32])
    ensures
        final(out)@ == old(out)@ + enc_code(code@),
{
    push_dec(out, code[0] as u64);
    push_code_tail(out, code, 1);
    proof {
        assert(out@ =~= old(out)@ + enc_code(code@));
    }
}

/// Serializes a `NewTestMessage` body to its canonical JSON bytes.
pub fn encode_new_test(m: &NewTestMessage) -> (out: Vec<u8>)
    ensures
        out@ == enc_new_test(model_of(*m)),
{
    let mut out: Vec<u8> = Vec::new();
    let ghost p1 = l_dir_key();
    let ghost p2 = enc_dir(m.direction);
    let ghost p3 = l_proto_key();
    let ghost p4 = enc_proto(m.protocol);
    let ghost p5 = l_bw_key();
    let ghost p6 = dec_digits(m.bw as nat);
    let ghost p7 = l_code_key();
    let ghost p8 = enc_code(m.code@);
    let ghost p9 = l_end_key();
    let ghost p10 = enc_end(m.end_condition);
    let ghost p11 = l_close();
    let l = lit_dir_key();
    push_lit(&mut out, &l);
    let ghost g1 = out@;
    push_dir(&mut out, m.direction);
    let ghost g2 = out@;
    let l = lit_proto_key();
    push_lit(&mut out, &l);
    let ghost g3 = out@;
    push_proto(&mut out, &m.protocol);
    let ghost g4 = out@;
    let l = lit_bw_key();
    push_lit(&mut out, &l);
    let ghost g5 = out@;
    push_dec(&mut out, m.bw);
    let ghost g6 = out@;
    let l = lit_code_key();
    push_lit(&mut out, &l);
    let ghost g7 = out@;
    push_code(&mut out, &m.code);
    let ghost g8 = out@;
    let l = lit_end_key();
    push_lit(&mut out, &l);
    let ghost g9 = out@;
    push_end(&mut out, &m.end_condition);
    let ghost g10 = out@;
    let l = lit_close();
    push_lit(&mut out, &l);
    proof {
        // reassociate the appended pieces, back to front
        let s11 = p11;
        let s10 = p10 + s11;
        let s9 = p9 + s10;
        let s8 = p8 + s9;
        let s7 = p7 + s8;
        let s6 = p6 + s7;
        let s5 = p5 + s6;
        let s4 = p4 + s5;
        let s3 = p3 + s4;
        let s2 = p2 + s3;
        let s1 = p1 + s2;
        assert(out@ == g10 + s11);
        assert(out@ =~= g9 + s10);
        assert(out@ =~= g8 + s9);
        assert(out@ =~= g7 + s8);
        assert(out@ =~= g6 + s7);
        assert(out@ =~= g5 + s6);
        assert(out@ =~= g4 + s5);
        assert(out@ =~= g3 + s4);
        assert(out@ =~= g2 + s3);
        assert(out@ =~= g1 + s2);
        assert(out@ =~= s1);
        assert(enc_new_test(model_of(*m)) == s1);
    }
    out
}

/// Serializes a `TestAssociationMessage` body to its canonical JSON bytes.
pub fn encode_association(a: &TestAssociationMessage) -> (out: Vec<u8>)
    ensures
        out@ == enc_assoc(a.code@),
{
    let mut out: Vec<u8> = Vec::new();
    let l = lit_assoc_open();
    push_lit(&mut out, &l);
    push_dec(&mut out, a.code[0] as u64);
    push_code_tail(&mut out, &a.code, 1);
    let l = lit_assoc_close();
    push_lit(&mut out, &l);
    proof {
        assert(out@ =~= enc_assoc(a.code@));
    }
    out
}

} // verus!
// === parsing ===

verus! {

/// Parse a direction value.
pub open spec fn parse_dir(s: Seq<u8>, i: int) -> Option<(Direction, int)> {
    match parse_lit(s, i, l_c2s()) {
        Some(j) => Some((Direction::ClientToServer, j)),
        None => match parse_lit(s, i, l_s2c()) {
            Some(j) => Some((Direction::ServerToClient, j)),
            None => match parse_lit(s, i, l_bidi()) {
                Some(j) => Some((Direction::Bidirectional, j)),
                None => None,
            },
        },
    }
}

/// Parse a protocol value: one of the stub names, or the stream object
/// with its two buffer sizes.
pub open spec fn parse_proto(s: Seq<u8>, i: int) -> Option<(Protocol, int)> {
    match parse_lit(s, i, l_udp()) {
        Some(j) => Some((Protocol::UDP, j)),
        None => match parse_lit(s, i, l_dccp()) {
            Some(j) => Some((Protocol::DCCP, j)),
            None => match parse_lit(s, i, l_sctp()) {
                Some(j) => Some((Protocol::SCTP, j)),
                None => match parse_lit(s, i, l_tcp_open()) {
                    Some(j1) => match parse_u64_at(s, j1) {
                        Some((recv, j2)) => match parse_lit(s, j2, l_send_key()) {
                            Some(j3) => match parse_u64_at(s, j3) {
                                Some((send, j4)) => match parse_lit(s, j4, l_double_close()) {
                                    Some(j5) => Some(
                                        (
                                            Protocol::TCP(
                                                TCPTestInfo {
                                                    recv_buf_size: recv,
                                                    send_buf_size: send,
                                                },
                                            ),
                                            j5,
                                        ),
                                    ),
                                    None => None,
                                },
                                None => None,
                            },
                            None => None,
                        },
                        None => None,
                    },
                    None => None,
                },
            },
        },
    }
}

/// Parse an end condition: a time object or a byte count.
pub open spec fn parse_end(s: Seq<u8>, i: int) -> Option<(EndCondition, int)> {
    match parse_lit(s, i, l_time_open()) {
        Some(j1) => match parse_u64_at(s, j1) {
            Some((secs, j2)) => match parse_lit(s, j2, l_nanos_key()) {
                Some(j3) => match parse_u64_at(s, j3) {
                    Some((nanos, j4)) => if nanos > u32::MAX {
                        None
                    } else {
                        match parse_lit(s, j4, l_double_close()) {
                            Some(j5) => Some(
                                (
                                    EndCondition::Time(
                                        TestDuration { secs, nanos: nanos as u32 },
                                    ),
                                    j5,
                                ),
                            ),
                            None => None,
                        }
                    },
                    None => None,
                },
                None => None,
            },
            None => None,
        },
        None => match parse_lit(s, i, l_bytes_open()) {
            Some(j1) => match parse_u64_at(s, j1) {
                Some((n, j2)) => match parse_lit(s, j2, l_close()) {
                    Some(j3) => Some((EndCondition::Bytes(n), j3)),
                    None => None,
                },
                None => None,
            },
            None => None,
        },
    }
}

/// Parse `count` further code elements, each a comma followed by a byte
/// value.
pub open spec fn parse_code_tail(s: Seq<u8>, i: int, count: nat) -> Option<(Seq<u8>, int)>
    decreases count,
{
    if count == 0 {
        Some((Seq::empty(), i))
    } else {
        match parse_lit(s, i, l_comma()) {
            Some(i1) => match parse_u64_at(s, i1) {
                Some((v, i2)) => if v > 255 {
                    None
                } else {
                    match parse_code_tail(s, i2, (count - 1) as nat) {
                        Some((vs, i3)) => Some((seq![v as u8] + vs, i3)),
                        None => None,
                    }
                },
                None => None,
            },
            None => None,
        }
    }
}

/// Parse the 32 code elements.
pub open spec fn parse_code(s: Seq<u8>, i: int) -> Option<(Seq<u8>, int)> {
    match parse_u64_at(s, i) {
        Some((v, i1)) => if v > 255 {
            None
        } else {
            match parse_code_tail(s, i1, 31) {
                Some((vs, i2)) => Some((seq![v as u8] + vs, i2)),
                None => None,
            }
        },
        None => None,
    }
}

/// Parse the back half of a `NewTestMessage` body — code array, end
/// condition, closing brace — carrying the already-parsed front fields.
pub open spec fn parse_new_test_tail(
    s: Seq<u8>,
    i: int,
    direction: Direction,
    protocol: Protocol,
    bw: u64,
) -> Option<(NewTestModel, int)> {
    match parse_lit(s, i, l_code_key()) {
        Some(j7) => match parse_code(s, j7) {
            Some((code, j8)) => match parse_lit(s, j8, l_end_key()) {
                Some(j9) => match parse_end(s, j9) {
                    Some((end_condition, j10)) => match parse_lit(s, j10, l_close()) {
                        Some(j11) => Some(
                            (
                                NewTestModel { direction, protocol, bw, code, end_condition },
                                j11,
                            ),
                        ),
                        None => None,
                    },
                    None => None,
                },
                None => None,
            },
            None => None,
        },
        None => None,
    }
}

/// Parse a whole `NewTestMessage` body starting at `i`.
pub open spec fn parse_new_test(s: Seq<u8>, i: int) -> Option<(NewTestModel, int)> {
    match parse_lit(s, i, l_dir_key()) {
        Some(j1) => match parse_dir(s, j1) {
            Some((direction, j2)) => match parse_lit(s, j2, l_proto_key()) {
                Some(j3) => match parse_proto(s, j3) {
                    Some((protocol, j4)) => match parse_lit(s, j4, l_bw_key()) {
                        Some(j5) => match parse_u64_at(s, j5) {
                            Some((bw, j6)) => parse_new_test_tail(
                                s,
                                j6,
                                direction,
                                protocol,
                                bw,
                            ),
                            None => None,
                        },
                        None => None,
                    },
                    None => None,
                },
                None => None,
            },
            None => None,
        },
        None => None,
    }
}

/// Parse a whole `TestAssociationMessage` body starting at `i`.
pub open spec fn parse_assoc(s: Seq<u8>, i: int) -> Option<(Seq<u8>, int)> {
    match parse_lit(s, i, l_assoc_open()) {
        Some(j1) => match parse_code(s, j1) {
            Some((code, j2)) => match parse_lit(s, j2, l_assoc_close()) {
                Some(j3) => Some((code, j3)),
                None => None,
            },
            None => None,
        },
        None => None,
    }
}

/// A `NewTestMessage` body decodes when the grammar matches and consumes
/// every byte.
pub open spec fn decode_new_test_spec(s: Seq<u8>) -> Option<NewTestModel> {
    match parse_new_test(s, 0) {
        Some((m, j)) => if j == s.len() {
            Some(m)
        } else {
            None
        },
        None => None,
    }
}

/// A `TestAssociationMessage` body decodes when the grammar matches and
/// consumes every byte.
pub open spec fn decode_association_spec(s: Seq<u8>) -> Option<Seq<u8>> {
    match parse_assoc(s, 0) {
        Some((code, j)) => if j == s.len() {
            Some(code)
        } else {
            None
        },
        None => None,
    }
}

} // verus!
// === executable decoding ===

verus! {

/// Executable direction parse.
fn parse_dir_e(s: &[u8], i: usize) -> (r: Option<(Direction, usize)>)
    ensures
        match r {
            Some(p) => parse_dir(s@, i as int) == Some((p.0, p.1 as int)) && p.1 <= s@.len(),
            None => parse_dir(s@, i as int) is None,
        },
{
    let l = lit_c2s();
    match eat_lit(s, i, &l) {
        Some(j) => Some((Direction::ClientToServer, j)),
        None => {
            let l = lit_s2c();
            match eat_lit(s, i, &l) {
                Some(j) => Some((Direction::ServerToClient, j)),
                None => {
                    let l = lit_bidi();
                    match eat_lit(s, i, &l) {
                        Some(j) => Some((Direction::Bidirectional, j)),
                        None => None,
                    }
                },
            }
        },
    }
}

/// Executable protocol parse.
fn parse_proto_e(s: &[u8], i: usize) -> (r: Option<(Protocol, usize)>)
    ensures
        match r {
            Some(p) => parse_proto(s@, i as int) == Some((p.0, p.1 as int)) && p.1 <= s@.len(),
            None => parse_proto(s@, i as int) is None,
        },
{
    let l = lit_udp();
    if let Some(j) = eat_lit(s, i, &l) {
        return Some((Protocol::UDP, j));
    }
    let l = lit_dccp();
    if let Some(j) = eat_lit(s, i, &l) {
        return Some((Protocol::DCCP, j));
    }
    let l = lit_sctp();
    if let Some(j) = eat_lit(s, i, &l) {
        return Some((Protocol::SCTP, j));
    }
    let l = lit_tcp_open();
    let j1 = match eat_lit(s, i, &l) {
        Some(j) => j,
        None => {
            return None;
        },
    };
    let (recv, j2) = match parse_number(s, j1) {
        Some(p) => p,
        None => {
            return None;
        },
    };
    let l = lit_send_key();
    let j3 = match eat_lit(s, j2, &l) {
        Some(j) => j,
        None => {
            return None;
        },
    };
    let (send, j4) = match parse_number(s, j3) {
        Some(p) => p,
        None => {
            return None;
        },
    };
    let l = lit_double_close();
    let j5 = match eat_lit(s, j4, &l) {
        Some(j) => j,
        None => {
            return None;
        },
    };
    Some((Protocol::TCP(TCPTestInfo { recv_buf_size: recv, send_buf_size: send }), j5))
}

/// Executable end-condition parse.
fn parse_end_e(s: &[u8], i: usize) -> (r: Option<(EndCondition, usize)>)
    ensures
        match r {
            Some(p) => parse_end(s@, i as int) == Some((p.0, p.1 as int)) && p.1 <= s@.len(),
            None => parse_end(s@, i as int) is None,
        },
{
    let l = lit_time_open();
    match eat_lit(s, i, &l) {
        Some(j1) => {
            let (secs, j2) = match parse_number(s, j1) {
                Some(p) => p,
                None => {
                    return None;
                },
            };
            let l = lit_nanos_key();
            let j3 = match eat_lit(s, j2, &l) {
                Some(j) => j,
                None => {
                    return None;
                },
            };
            let (nanos, j4) = match parse_number(s, j3) {
                Some(p) => p,
                None => {
                    return None;
                },
            };
            if nanos > 0xFFFF_FFFF {
                return None;
            }
            let l = lit_double_close();
            let j5 = match eat_lit(s, j4, &l) {
                Some(j) => j,
                None => {
                    return None;
                },
            };
            Some((EndCondition::Time(TestDuration { secs, nanos: nanos as u32 }), j5))
        },
        None => {
            let l = lit_bytes_open();
            let j1 = match eat_lit(s, i, &l) {
                Some(j) => j,
                None => {
                    return None;
                },
            };
            let (n, j2) = match parse_number(s, j1) {
                Some(p) => p,
                None => {
                    return None;
                },
            };
            let l = lit_close();
            let j3 = match eat_lit(s, j2, &l) {
                Some(j) => j,
                None => {
                    return None;
                },
            };
            Some((EndCondition::Bytes(n), j3))
        },
    }
}

/// Executable parse of the remaining code elements, filling `code` from
/// slot `k` on.
fn eat_code_tail(s: &[u8], i: usize, code: &mut [u8; 32], k: usize) -> (r: Option<usize>)
    requires
        k <= 32,
        i <= s@.len(),
    ensures
        match r {
            Some(j) => {
                &&& parse_code_tail(s@, i as int, (32 - k) as nat) == Some(
                    (final(code)@.subrange(k as int, 32), j as int),
                )
                &&& final(code)@.subrange(0, k as int) == old(code)@.subrange(0, k as int)
                &&& j <= s@.len()
            },
            None => parse_code_tail(s@, i as int, (32 - k) as nat) is None,
        },
    decreases 32 - k,
{
    if k == 32 {
        proof {
            assert(code@.subrange(32, 32) =~= Seq::<u8>::empty());
            assert(code@.subrange(0, 32) =~= old(code)@.subrange(0, 32));
        }
        return Some(i);
    }
    let l = lit_comma();
    let i1 = match eat_lit(s, i, &l) {
        Some(j) => j,
        None => {
            return None;
        },
    };
    let (v, i2) = match parse_number(s, i1) {
        Some(p) => p,
        None => {
            return None;
        },
    };
    if v > 255 {
        return None;
    }
    code[k] = v as u8;
    let ghost mid = code@;
    match eat_code_tail(s, i2, code, k + 1) {
        Some(j) => {
            proof {
                assert(mid[k as int] == v as u8);
                assert(code@.subrange(0, k + 1) == mid.subrange(0, k + 1));
                assert(code@[k as int] == code@.subrange(0, k + 1)[k as int]);
                assert(code@.subrange(0, k as int) =~= old(code)@.subrange(0, k as int)) by {
                    assert forall|t: int| 0 <= t < k implies code@.subrange(0, k as int)[t]
                        == old(code)@.subrange(0, k as int)[t] by {
                        assert(code@.subrange(0, k + 1)[t] == mid.subrange(0, k + 1)[t]);
                        assert(mid[t] == old(code)@[t]);
                    }
                }
                assert(code@.subrange(k as int, 32) =~= seq![v as u8] + code@.subrange(
                    k + 1,
                    32,
                ));
            }
            Some(j)
        },
        None => None,
    }
}

/// Executable parse of the full 32-element code array.
fn parse_code_e(s: &[u8], i: usize, code: &mut [u8; 32]) -> (r: Option<usize>)
    ensures
        match r {
            Some(j) => parse_code(s@, i as int) == Some((final(code)@, j as int)) && j
                <= s@.len(),
            None => parse_code(s@, i as int) is None,
        },
{
    let (v, i1) = match parse_number(s, i) {
        Some(p) => p,
        None => {
            return None;
        },
    };
    if v > 255 {
        return None;
    }
    code[0] = v as u8;
    let ghost mid = code@;
    match eat_code_tail(s, i1, code, 1) {
        Some(j) => {
            proof {
                assert(mid[0] == v as u8);
                assert(code@.subrange(0, 1) == mid.subrange(0, 1));
                assert(code@[0] == code@.subrange(0, 1)[0]);
                assert(code@ =~= seq![v as u8] + code@.subrange(1, 32));
            }
            Some(j)
        },
        None => None,
    }
}

/// Deserializes a `NewTestMessage` body from its JSON bytes; `None` on any
/// malformed input or trailing bytes.
pub fn decode_new_test(body: &[u8]) -> (r: Option<NewTestMessage>)
    ensures
        match r {
            Some(m) => decode_new_test_spec(body@) == Some(model_of(m)),
            None => decode_new_test_spec(body@) is None,
        },
{
    let l = lit_dir_key();
    let j1 = match eat_lit(body, 0, &l) {
        Some(j) => j,
        None => {
            return None;
        },
    };
    let (direction, j2) = match parse_dir_e(body, j1) {
        Some(p) => p,
        None => {
            return None;
        },
    };
    let l = lit_proto_key();
    let j3 = match eat_lit(body, j2, &l) {
        Some(j) => j,
        None => {
            return None;
        },
    };
    let (protocol, j4) = match parse_proto_e(body, j3) {
        Some(p) => p,
        None => {
            return None;
        },
    };
    let l = lit_bw_key();
    let j5 = match eat_lit(body, j4, &l) {
        Some(j) => j,
        None => {
            return None;
        },
    };
    let (bw, j6) = match parse_number(body, j5) {
        Some(p) => p,
        None => {
            return None;
        },
    };
    let l = lit_code_key();
    let j7 = match eat_lit(body, j6, &l) {
        Some(j) => j,
        None => {
            return None;
        },
    };
    let mut code: [u8; 32] = [0; 32];
    let j8 = match parse_code_e(body, j7, &mut code) {
        Some(j) => j,
        None => {
            return None;
        },
    };
    let l = lit_end_key();
    let j9 = match eat_lit(body, j8, &l) {
        Some(j) => j,
        None => {
            return None;
        },
    };
    let (end_condition, j10) = match parse_end_e(body, j9) {
        Some(p) => p,
        None => {
            return None;
        },
    };
    let l = lit_close();
    let j11 = match eat_lit(body, j10, &l) {
        Some(j) => j,
        None => {
            return None;
        },
    };
    if j11 != body.len() {
        return None;
    }
    Some(NewTestMessage { direction, protocol, bw, code, end_condition })
}

/// Deserializes a `TestAssociationMessage` body from its JSON bytes;
/// `None` on any malformed input or trailing bytes.
pub fn decode_association(body: &[u8]) -> (r: Option<TestAssociationMessage>)
    ensures
        match r {
            Some(a) => decode_association_spec(body@) == Some(a.code@),
            None => decode_association_spec(body@) is None,
        },
{
    let l = lit_assoc_open();
    let j1 = match eat_lit(body, 0, &l) {
        Some(j) => j,
        None => {
            return None;
        },
    };
    let mut code: [u8; 32] = [0; 32];
    let j2 = match parse_code_e(body, j1, &mut code) {
        Some(j) => j,
        None => {
            return None;
        },
    };
    let l = lit_assoc_close();
    let j3 = match eat_lit(body, j2, &l) {
        Some(j) => j,
        None => {
            return None;
        },
    };
    if j3 != body.len() {
        return None;
    }
    Some(TestAssociationMessage { code })
}

} // verus!
// === framing ===

verus! {

/// Big-endian bytes of a 16-bit id.
pub open spec fn be16(x: u16) -> Seq<u8> {
    seq![(x >> 8) as u8, (x & 0xFF) as u8]
}

/// Big-endian bytes of a 32-bit length.
pub open spec fn be32(x: u32) -> Seq<u8> {
    seq![
        (x >> 24) as u8,
        ((x >> 16) & 0xFF) as u8,
        ((x >> 8) & 0xFF) as u8,
        (x & 0xFF) as u8,
    ]
}

/// The 16-bit value of two big-endian bytes.
pub open spec fn be16_val(b0: u8, b1: u8) -> u16 {
    ((b0 as u16) << 8) | (b1 as u16)
}

/// The 32-bit value of four big-endian bytes.
pub open spec fn be32_val(b0: u8, b1: u8, b2: u8, b3: u8) -> u32 {
    ((b0 as u32) << 24) | ((b1 as u32) << 16) | ((b2 as u32) << 8) | (b3 as u32)
}

/// A framed message: 2-byte big-endian type id, 4-byte big-endian body
/// length, then the body.
pub open spec fn frame_spec(message_id: u16, body: Seq<u8>) -> Seq<u8> {
    be16(message_id) + (be32(body.len() as u32) + body)
}

/// What a 6-byte header decodes to: the message type for its id, carrying
/// the declared body length.
pub open spec fn header_spec(h: Seq<u8>) -> Result<MessageType, NBError> {
    message_type_of(be16_val(h[0], h[1]), be32_val(h[2], h[3], h[4], h[5]) as usize)
}

/// Frames a message body for the wire.
pub fn frame_message(message_id: u16, body: &Vec<u8>) -> (out: Vec<u8>)
    requires
        body@.len() <= u32::MAX,
    ensures
        out@ == frame_spec(message_id, body@),
        out@.len() == body@.len() + 6,
{
    let mut out: Vec<u8> = Vec::new();
    out.push((message_id >> 8) as u8);
    out.push((message_id & 0xFF) as u8);
    let blen: u32 = body.len() as u32;
    out.push((blen >> 24) as u8);
    out.push(((blen >> 16) & 0xFF) as u8);
    out.push(((blen >> 8) & 0xFF) as u8);
    out.push((blen & 0xFF) as u8);
    push_lit(&mut out, body);
    proof {
        assert(out@ =~= frame_spec(message_id, body@));
    }
    out
}

/// Decodes the fixed 6-byte header into a message type; unknown ids fail
/// with `InvalidMessageType`.
pub fn parse_header(header: &[u8]) -> (r: Result<MessageType, NBError>)
    requires
        header@.len() == CONTROL_MSG_SIZE,
    ensures
        r == header_spec(header@),
{
    let id: u16 = ((header[0] as u16) << 8) | (header[1] as u16);
    let len: u32 = ((header[2] as u32) << 24) | ((header[3] as u32) << 16) | ((header[4]
        as u32) << 8) | (header[5] as u32);
    MessageType::new(id, len as usize)
}

/// Framing law: a body of length L frames to exactly L+6 wire bytes; the
/// first two bytes are the id and the next four are L, both big-endian,
/// and the header decodes back to the id with the declared length L.
pub proof fn lemma_framing(message_id: u16, body: Seq<u8>)
    requires
        body.len() <= u32::MAX,
    ensures
        frame_spec(message_id, body).len() == body.len() + 6,
        frame_spec(message_id, body).subrange(0, 2) == be16(message_id),
        frame_spec(message_id, body).subrange(2, 6) == be32(body.len() as u32),
        frame_spec(message_id, body).subrange(6, body.len() + 6int) == body,
        header_spec(frame_spec(message_id, body).subrange(0, 6)) == message_type_of(
            message_id,
            body.len() as usize,
        ),
{
    let s = frame_spec(message_id, body);
    assert(s.subrange(0, 2) =~= be16(message_id));
    assert(s.subrange(2, 6) =~= be32(body.len() as u32));
    assert(s.subrange(6, body.len() + 6int) =~= body);
    let h = s.subrange(0, 6);
    let x = message_id;
    assert(h[0] == (x >> 8) as u8 && h[1] == (x & 0xFF) as u8);
    assert(((((x >> 8) as u8) as u16) << 8) | (((x & 0xFF) as u8) as u16) == x)
        by (bit_vector);
    let l: u32 = body.len() as u32;
    assert(h[2] == (l >> 24) as u8 && h[3] == ((l >> 16) & 0xFF) as u8 && h[4] == ((l >> 8)
        & 0xFF) as u8 && h[5] == (l & 0xFF) as u8);
    assert(((((l >> 24) as u8) as u32) << 24) | (((((l >> 16) & 0xFF) as u8) as u32) << 16)
        | (((((l >> 8) & 0xFF) as u8) as u32) << 8) | (((l & 0xFF) as u8) as u32) == l)
        by (bit_vector);
    assert(be16_val(h[0], h[1]) == x);
    assert(be32_val(h[2], h[3], h[4], h[5]) == l);
}

/// The encoded code array is at most 4 bytes per element.
proof fn lemma_enc_code_tail_len(code: Seq<u8>, i: int)
    requires
        0 <= i <= code.len(),
    ensures
        enc_code_tail(code, i).len() <= (code.len() - i) * 4,
    decreases code.len() - i,
{
    if i < code.len() {
        crate::codec::num::lemma_dec_digits_len_u8(code[i]);
        lemma_enc_code_tail_len(code, i + 1);
    }
}

/// A canonical `NewTestMessage` body is well under the 32-bit length
/// limit of the frame.
pub proof fn lemma_enc_new_test_len(m: NewTestModel)
    requires
        m.code.len() == 32,
    ensures
        enc_new_test(m).len() <= 512,
{
    crate::codec::num::lemma_dec_digits_len_u64(m.bw);
    lemma_enc_code_tail_len(m.code, 1);
    crate::codec::num::lemma_dec_digits_len_u8(m.code[0]);
    match m.protocol {
        Protocol::TCP(info) => {
            crate::codec::num::lemma_dec_digits_len_u64(info.recv_buf_size);
            crate::codec::num::lemma_dec_digits_len_u64(info.send_buf_size);
        },
        _ => {},
    }
    match m.end_condition {
        EndCondition::Time(d) => {
            crate::codec::num::lemma_dec_digits_len_u64(d.secs);
            crate::codec::num::lemma_dec_digits_len_u64(d.nanos as u64);
        },
        EndCondition::Bytes(n) => {
            crate::codec::num::lemma_dec_digits_len_u64(n);
        },
    }
}

/// A canonical `TestAssociationMessage` body is well under the 32-bit
/// length limit of the frame.
pub proof fn lemma_enc_assoc_len(code: Seq<u8>)
    requires
        code.len() == 32,
    ensures
        enc_assoc(code).len() <= 256,
{
    lemma_enc_code_tail_len(code, 1);
    crate::codec::num::lemma_dec_digits_len_u8(code[0]);
}

/// The full wire bytes announcing a new test: the framed canonical body
/// under the NewTest id.
pub fn new_test_wire_bytes(m: &NewTestMessage) -> (out: Vec<u8>)
    ensures
        out@ == frame_spec(0x0, enc_new_test(model_of(*m))),
        out@.len() == enc_new_test(model_of(*m)).len() + 6,
{
    let body = encode_new_test(m);
    proof {
        lemma_enc_new_test_len(model_of(*m));
    }
    frame_message(MessageID::NEW_TEST_MESSAGE, &body)
}

/// The full wire bytes claiming a test over a fresh data connection: the
/// framed canonical body under the TestAssociation id.
pub fn association_wire_bytes(a: &TestAssociationMessage) -> (out: Vec<u8>)
    ensures
        out@ == frame_spec(0x3, enc_assoc(a.code@)),
        out@.len() == enc_assoc(a.code@).len() + 6,
{
    let body = encode_association(a);
    proof {
        lemma_enc_assoc_len(a.code@);
    }
    frame_message(MessageID::TEST_ASSOCIATION_MESSAGE, &body)
}

} // verus!
