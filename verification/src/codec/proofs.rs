//! Round-trip proofs for the wire codec: the canonical encoding of a
//! message, handed to the parser, yields the message back.
//!
//! The proofs walk the encoded bytes piece by piece.  `lemma_cat` splits
//! one concatenation step: it exposes the piece as a subrange, the first
//! byte after it, and the regrouped remainder for the next step.

use vstd::prelude::*;

use crate::codec::decode_association_spec;
use crate::codec::decode_new_test_spec;
use crate::codec::enc_assoc;
use crate::codec::enc_code;
use crate::codec::enc_code_tail;
use crate::codec::enc_dir;
use crate::codec::enc_end;
use crate::codec::enc_new_test;
use crate::codec::enc_proto;
use crate::codec::model_of;
use crate::codec::parse_assoc;
use crate::codec::parse_code;
use crate::codec::parse_code_tail;
use crate::codec::parse_dir;
use crate::codec::parse_end;
use crate::codec::parse_new_test;
use crate::codec::parse_new_test_tail;
use crate::codec::parse_proto;
use crate::codec::NewTestModel;
use crate::codec::lits::l_assoc_close;
use crate::codec::lits::l_assoc_open;
use crate::codec::lits::l_bidi;
use crate::codec::lits::l_bw_key;
use crate::codec::lits::l_bytes_open;
use crate::codec::lits::l_c2s;
use crate::codec::lits::l_close;
use crate::codec::lits::l_code_key;
use crate::codec::lits::l_comma;
use crate::codec::lits::l_dccp;
use crate::codec::lits::l_dir_key;
use crate::codec::lits::l_double_close;
use crate::codec::lits::l_end_key;
use crate::codec::lits::l_nanos_key;
use crate::codec::lits::l_proto_key;
use crate::codec::lits::l_s2c;
use crate::codec::lits::l_sctp;
use crate::codec::lits::l_send_key;
use crate::codec::lits::l_tcp_open;
use crate::codec::lits::l_time_open;
use crate::codec::lits::l_udp;
use crate::codec::lits::parse_lit;
use crate::codec::num::dec_digits;
use crate::codec::num::is_digit;
use crate::codec::num::lemma_dec_digits_wf;
use crate::codec::num::lemma_parse_dec_at;
use crate::messages::Direction;
use crate::messages::EndCondition;
use crate::messages::NewTestMessage;
use crate::messages::Protocol;
use crate::messages::TestAssociationMessage;

verus! {

/// One step through a concatenation: with `s` split as
/// `prefix + (piece + rest)`, the piece occupies the subrange after the
/// prefix, the byte after it is `rest`'s first, and `s` regroups as
/// `(prefix + piece) + rest` for the next step.
pub proof fn lemma_cat(s: Seq<u8>, prefix: Seq<u8>, piece: Seq<u8>, rest: Seq<u8>)
    requires
        s == prefix + (piece + rest),
    ensures
        s.len() == prefix.len() + piece.len() + rest.len(),
        forall|t: int| 0 <= t < piece.len() ==> s[prefix.len() + t] == #[trigger] piece[t],
        s.subrange(prefix.len() as int, prefix.len() + piece.len() as int) == piece,
        rest.len() > 0 ==> s[prefix.len() + piece.len() as int] == rest[0],
        s == (prefix + piece) + rest,
{
    assert(s.subrange(prefix.len() as int, prefix.len() + piece.len() as int) =~= piece);
    assert(s =~= (prefix + piece) + rest);
}

/// A direction's canonical encoding, followed by the comma of the next
/// key, parses back to that direction.
proof fn lemma_parse_dir_of_enc(s: Seq<u8>, prefix: Seq<u8>, d: Direction, rest: Seq<u8>)
    requires
        s == prefix + (enc_dir(d) + rest),
        rest.len() > 0,
        rest[0] == 44,
    ensures
        parse_dir(s, prefix.len() as int) == Some(
            (d, prefix.len() + enc_dir(d).len() as int),
        ),
        s == (prefix + enc_dir(d)) + rest,
{
    let i = prefix.len() as int;
    lemma_cat(s, prefix, enc_dir(d), rest);
    match d {
        Direction::ClientToServer => {
            assert(parse_lit(s, i, l_c2s()) == Some(i + 16));
        },
        Direction::ServerToClient => {
            assert(parse_lit(s, i, l_c2s()) is None) by {
                if 0 <= i && i + 16 <= s.len() && s.subrange(i, i + 16) == l_c2s() {
                    assert(s.subrange(i, i + 16)[1] == s[i + 1]);
                }
            }
            assert(parse_lit(s, i, l_s2c()) == Some(i + 16));
        },
        Direction::Bidirectional => {
            assert(s[i + 15] == 44);
            assert(parse_lit(s, i, l_c2s()) is None) by {
                if 0 <= i && i + 16 <= s.len() && s.subrange(i, i + 16) == l_c2s() {
                    assert(s.subrange(i, i + 16)[15] == s[i + 15]);
                }
            }
            assert(parse_lit(s, i, l_s2c()) is None) by {
                if 0 <= i && i + 16 <= s.len() && s.subrange(i, i + 16) == l_s2c() {
                    assert(s.subrange(i, i + 16)[15] == s[i + 15]);
                }
            }
            assert(parse_lit(s, i, l_bidi()) == Some(i + 15));
        },
    }
}

/// A protocol's canonical encoding parses back to that protocol.
#[verifier::rlimit(100)]
proof fn lemma_parse_proto_of_enc(s: Seq<u8>, prefix: Seq<u8>, p: Protocol, rest: Seq<u8>)
    requires
        s == prefix + (enc_proto(p) + rest),
        rest.len() > 0,
    ensures
        parse_proto(s, prefix.len() as int) == Some(
            (p, prefix.len() + enc_proto(p).len() as int),
        ),
        s == (prefix + enc_proto(p)) + rest,
{
    let i = prefix.len() as int;
    lemma_cat(s, prefix, enc_proto(p), rest);
    match p {
        Protocol::UDP => {
            assert(parse_lit(s, i, l_udp()) == Some(i + 5));
        },
        Protocol::DCCP => {
            assert(parse_lit(s, i, l_udp()) is None) by {
                if 0 <= i && i + 5 <= s.len() && s.subrange(i, i + 5) == l_udp() {
                    assert(s.subrange(i, i + 5)[1] == s[i + 1]);
                }
            }
            assert(parse_lit(s, i, l_dccp()) == Some(i + 6));
        },
        Protocol::SCTP => {
            assert(parse_lit(s, i, l_udp()) is None) by {
                if 0 <= i && i + 5 <= s.len() && s.subrange(i, i + 5) == l_udp() {
                    assert(s.subrange(i, i + 5)[1] == s[i + 1]);
                }
            }
            assert(parse_lit(s, i, l_dccp()) is None) by {
                if 0 <= i && i + 6 <= s.len() && s.subrange(i, i + 6) == l_dccp() {
                    assert(s.subrange(i, i + 6)[1] == s[i + 1]);
                }
            }
            assert(parse_lit(s, i, l_sctp()) == Some(i + 6));
        },
        Protocol::TCP(info) => {
            let a = l_tcp_open();
            let b = dec_digits(info.recv_buf_size as nat);
            let c = l_send_key();
            let d2 = dec_digits(info.send_buf_size as nat);
            let e = l_double_close();
            lemma_dec_digits_wf(info.recv_buf_size as nat);
            lemma_dec_digits_wf(info.send_buf_size as nat);
            assert(s =~= prefix + (a + (b + (c + (d2 + (e + rest))))));
            lemma_cat(s, prefix, a, b + (c + (d2 + (e + rest))));
            assert(s[i] == 123);
            assert(parse_lit(s, i, l_udp()) is None) by {
                if 0 <= i && i + 5 <= s.len() && s.subrange(i, i + 5) == l_udp() {
                    assert(s.subrange(i, i + 5)[0] == s[i]);
                }
            }
            assert(parse_lit(s, i, l_dccp()) is None) by {
                if 0 <= i && i + 6 <= s.len() && s.subrange(i, i + 6) == l_dccp() {
                    assert(s.subrange(i, i + 6)[0] == s[i]);
                }
            }
            assert(parse_lit(s, i, l_sctp()) is None) by {
                if 0 <= i && i + 6 <= s.len() && s.subrange(i, i + 6) == l_sctp() {
                    assert(s.subrange(i, i + 6)[0] == s[i]);
                }
            }
            assert(parse_lit(s, i, a) == Some(i + 22));
            let p1 = prefix + a;
            lemma_cat(s, p1, b, c + (d2 + (e + rest)));
            assert((c + (d2 + (e + rest)))[0] == 44);
            lemma_parse_dec_at(s, p1.len() as int, info.recv_buf_size);
            let p2 = p1 + b;
            lemma_cat(s, p2, c, d2 + (e + rest));
            let p3 = p2 + c;
            lemma_cat(s, p3, d2, e + rest);
            assert((e + rest)[0] == 125);
            lemma_parse_dec_at(s, p3.len() as int, info.send_buf_size);
            let p4 = p3 + d2;
            lemma_cat(s, p4, e, rest);
            assert(parse_lit(s, p4.len() as int, e) == Some(p4.len() + 2int));
        },
    }
}

/// An end condition's canonical encoding parses back to that condition.
#[verifier::rlimit(100)]
proof fn lemma_parse_end_of_enc(s: Seq<u8>, prefix: Seq<u8>, ec: EndCondition, rest: Seq<u8>)
    requires
        s == prefix + (enc_end(ec) + rest),
        rest.len() > 0,
    ensures
        parse_end(s, prefix.len() as int) == Some(
            (ec, prefix.len() + enc_end(ec).len() as int),
        ),
        s == (prefix + enc_end(ec)) + rest,
{
    let i = prefix.len() as int;
    lemma_cat(s, prefix, enc_end(ec), rest);
    match ec {
        EndCondition::Time(d) => {
            let a = l_time_open();
            let b = dec_digits(d.secs as nat);
            let c = l_nanos_key();
            let d2 = dec_digits(d.nanos as nat);
            let e = l_double_close();
            lemma_dec_digits_wf(d.secs as nat);
            lemma_dec_digits_wf(d.nanos as nat);
            assert(s =~= prefix + (a + (b + (c + (d2 + (e + rest))))));
            lemma_cat(s, prefix, a, b + (c + (d2 + (e + rest))));
            assert(parse_lit(s, i, a) == Some(i + 16));
            let p1 = prefix + a;
            lemma_cat(s, p1, b, c + (d2 + (e + rest)));
            assert((c + (d2 + (e + rest)))[0] == 44);
            lemma_parse_dec_at(s, p1.len() as int, d.secs);
            let p2 = p1 + b;
            lemma_cat(s, p2, c, d2 + (e + rest));
            let p3 = p2 + c;
            lemma_cat(s, p3, d2, e + rest);
            assert((e + rest)[0] == 125);
            lemma_parse_dec_at(s, p3.len() as int, d.nanos as u64);
            let p4 = p3 + d2;
            lemma_cat(s, p4, e, rest);
            assert(parse_lit(s, p4.len() as int, e) == Some(p4.len() + 2int));
        },
        EndCondition::Bytes(n) => {
            let a = l_bytes_open();
            let b = dec_digits(n as nat);
            let c = l_close();
            lemma_dec_digits_wf(n as nat);
            assert(s =~= prefix + (a + (b + (c + rest))));
            lemma_cat(s, prefix, a, b + (c + rest));
            assert(s[i + 2] == 98);
            assert(parse_lit(s, i, l_time_open()) is None) by {
                if 0 <= i && i + 16 <= s.len() && s.subrange(i, i + 16) == l_time_open() {
                    assert(s.subrange(i, i + 16)[2] == s[i + 2]);
                }
            }
            assert(parse_lit(s, i, a) == Some(i + 9));
            let p1 = prefix + a;
            lemma_cat(s, p1, b, c + rest);
            assert((c + rest)[0] == 125);
            lemma_parse_dec_at(s, p1.len() as int, n);
            let p2 = p1 + b;
            lemma_cat(s, p2, c, rest);
            assert(parse_lit(s, p2.len() as int, c) == Some(p2.len() + 1int));
        },
    }
}

/// The encoded tail of the code array (elements `k..`) parses back to
/// exactly those elements.
proof fn lemma_parse_code_tail_of_enc(
    s: Seq<u8>,
    prefix: Seq<u8>,
    code: Seq<u8>,
    k: int,
    rest: Seq<u8>,
)
    requires
        0 <= k <= code.len(),
        s == prefix + (enc_code_tail(code, k) + rest),
        rest.len() > 0,
        !is_digit(rest[0]),
    ensures
        parse_code_tail(s, prefix.len() as int, (code.len() - k) as nat) == Some(
            (
                code.subrange(k, code.len() as int),
                prefix.len() + enc_code_tail(code, k).len() as int,
            ),
        ),
    decreases code.len() - k,
{
    let i = prefix.len() as int;
    if k == code.len() {
        assert(enc_code_tail(code, k) == Seq::<u8>::empty());
        assert(code.subrange(k, code.len() as int) =~= Seq::<u8>::empty());
        assert(parse_code_tail(s, i, 0) == Some((Seq::<u8>::empty(), i)));
    } else {
        let a = l_comma();
        let b = dec_digits(code[k] as nat);
        let tail = enc_code_tail(code, k + 1);
        lemma_dec_digits_wf(code[k] as nat);
        assert(s =~= prefix + (a + (b + (tail + rest))));
        lemma_cat(s, prefix, a, b + (tail + rest));
        assert(parse_lit(s, i, a) == Some(i + 1));
        let p1 = prefix + a;
        lemma_cat(s, p1, b, tail + rest);
        assert(!is_digit((tail + rest)[0])) by {
            if k + 1 < code.len() {
                assert(tail[0] == 44);
            }
        }
        lemma_parse_dec_at(s, p1.len() as int, code[k] as u64);
        let p2 = p1 + b;
        assert(s == p2 + (tail + rest));
        lemma_parse_code_tail_of_enc(s, p2, code, k + 1, rest);
        assert(code.subrange(k, code.len() as int) =~= seq![code[k]] + code.subrange(
            k + 1,
            code.len() as int,
        ));
    }
}

/// The encoded code array parses back to exactly its 32 elements.
proof fn lemma_parse_code_of_enc(s: Seq<u8>, prefix: Seq<u8>, code: Seq<u8>, rest: Seq<u8>)
    requires
        code.len() == 32,
        s == prefix + (enc_code(code) + rest),
        rest.len() > 0,
        !is_digit(rest[0]),
    ensures
        parse_code(s, prefix.len() as int) == Some(
            (code, prefix.len() + enc_code(code).len() as int),
        ),
        s == (prefix + enc_code(code)) + rest,
{
    let b = dec_digits(code[0] as nat);
    let tail = enc_code_tail(code, 1);
    lemma_dec_digits_wf(code[0] as nat);
    assert(s =~= prefix + (b + (tail + rest)));
    lemma_cat(s, prefix, b, tail + rest);
    assert(!is_digit((tail + rest)[0])) by {
        assert(tail[0] == 44);
    }
    lemma_parse_dec_at(s, prefix.len() as int, code[0] as u64);
    let p1 = prefix + b;
    assert(s == p1 + (tail + rest));
    lemma_parse_code_tail_of_enc(s, p1, code, 1, rest);
    assert(code =~= seq![code[0]] + code.subrange(1, 32));
}

/// The back half of the canonical body — code array, end condition,
/// closing brace — parses back to the model, ending exactly at the end of
/// the sequence.
#[verifier::rlimit(100)]
proof fn lemma_parse_new_test_tail_of_enc(
    s: Seq<u8>,
    prefix: Seq<u8>,
    m: NewTestModel,
)
    requires
        m.code.len() == 32,
        s == prefix + (l_code_key() + (enc_code(m.code) + (l_end_key() + (enc_end(
            m.end_condition,
        ) + l_close())))),
    ensures
        parse_new_test_tail(s, prefix.len() as int, m.direction, m.protocol, m.bw) == Some(
            (m, s.len() as int),
        ),
{
    let p7 = l_code_key();
    let p8 = enc_code(m.code);
    let p9 = l_end_key();
    let p10 = enc_end(m.end_condition);
    let p11 = l_close();
    let s8 = p8 + (p9 + (p10 + p11));
    let s9 = p9 + (p10 + p11);
    let s10 = p10 + p11;
    lemma_cat(s, prefix, p7, s8);
    assert(parse_lit(s, prefix.len() as int, p7) == Some(prefix.len() + 9int));
    let q7 = prefix + p7;
    lemma_parse_code_of_enc(s, q7, m.code, s9);
    assert(s9[0] == 93);
    let q8 = q7 + p8;
    lemma_cat(s, q8, p9, s10);
    assert(parse_lit(s, q8.len() as int, p9) == Some(q8.len() + 17int));
    let q9 = q8 + p9;
    lemma_parse_end_of_enc(s, q9, m.end_condition, p11);
    let q10 = q9 + p10;
    lemma_cat(s, q10, p11, Seq::<u8>::empty());
    assert(s =~= q10 + (p11 + Seq::<u8>::empty()));
    assert(parse_lit(s, q10.len() as int, p11) == Some(q10.len() + 1int));
    assert(q10.len() + 1 == s.len());
}

/// The canonical body of a message model parses back to the model,
/// consuming every byte.
#[verifier::rlimit(100)]
proof fn lemma_parse_new_test_of_enc(m: NewTestModel)
    requires
        m.code.len() == 32,
    ensures
        parse_new_test(enc_new_test(m), 0) == Some(
            (m, enc_new_test(m).len() as int),
        ),
{
    let s = enc_new_test(m);
    let p1 = l_dir_key();
    let p2 = enc_dir(m.direction);
    let p3 = l_proto_key();
    let p4 = enc_proto(m.protocol);
    let p5 = l_bw_key();
    let p6 = dec_digits(m.bw as nat);
    let p7 = l_code_key();
    let p8 = enc_code(m.code);
    let p9 = l_end_key();
    let p10 = enc_end(m.end_condition);
    let p11 = l_close();
    let s7 = p7 + (p8 + (p9 + (p10 + p11)));
    let s6 = p6 + s7;
    let s5 = p5 + s6;
    let s4 = p4 + s5;
    let s3 = p3 + s4;
    let s2 = p2 + s3;
    lemma_dec_digits_wf(m.bw as nat);
    assert(s =~= Seq::<u8>::empty() + (p1 + s2));
    lemma_cat(s, Seq::<u8>::empty(), p1, s2);
    assert(parse_lit(s, 0, p1) == Some(13int));
    let q1 = Seq::<u8>::empty() + p1;
    lemma_parse_dir_of_enc(s, q1, m.direction, s3);
    assert(s3[0] == 44);
    let q2 = q1 + p2;
    lemma_cat(s, q2, p3, s4);
    assert(parse_lit(s, q2.len() as int, p3) == Some(q2.len() + 12int));
    let q3 = q2 + p3;
    lemma_parse_proto_of_enc(s, q3, m.protocol, s5);
    let q4 = q3 + p4;
    lemma_cat(s, q4, p5, s6);
    assert(parse_lit(s, q4.len() as int, p5) == Some(q4.len() + 6int));
    let q5 = q4 + p5;
    lemma_cat(s, q5, p6, s7);
    assert(s7[0] == 44);
    lemma_parse_dec_at(s, q5.len() as int, m.bw);
    let q6 = q5 + p6;
    lemma_parse_new_test_tail_of_enc(s, q6, m);
}

/// Round trip: any `NewTestMessage`, encoded and then decoded, yields an
/// equal value — direction, protocol (buffer sizes included), bandwidth,
/// code and end condition.
pub proof fn lemma_new_test_round_trip(m: NewTestMessage)
    ensures
        decode_new_test_spec(enc_new_test(model_of(m))) == Some(model_of(m)),
{
    lemma_parse_new_test_of_enc(model_of(m));
}

/// The canonical body of an association message parses back to its code,
/// consuming every byte.
proof fn lemma_parse_assoc_of_enc(code: Seq<u8>)
    requires
        code.len() == 32,
    ensures
        parse_assoc(enc_assoc(code), 0) == Some(
            (code, enc_assoc(code).len() as int),
        ),
{
    let s = enc_assoc(code);
    let p1 = l_assoc_open();
    let p2 = enc_code(code);
    let p3 = l_assoc_close();
    assert(s =~= Seq::<u8>::empty() + (p1 + (p2 + p3)));
    lemma_cat(s, Seq::<u8>::empty(), p1, p2 + p3);
    assert(parse_lit(s, 0, p1) == Some(9int));
    let q1 = Seq::<u8>::empty() + p1;
    lemma_parse_code_of_enc(s, q1, code, p3);
    assert(p3[0] == 93);
    let q2 = q1 + p2;
    assert(s == q2 + (p3 + Seq::<u8>::empty()));
    lemma_cat(s, q2, p3, Seq::<u8>::empty());
    assert(parse_lit(s, q2.len() as int, p3) == Some(q2.len() + 2int));
    assert(q2.len() + 2 == s.len());
}

/// Round trip for the association message: encode then decode yields the
/// same code.
pub proof fn lemma_association_round_trip(a: TestAssociationMessage)
    ensures
        decode_association_spec(enc_assoc(a.code@)) == Some(a.code@),
{
    lemma_parse_assoc_of_enc(a.code@);
}

} // verus!
