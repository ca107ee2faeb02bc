//! The fixed byte strings of the JSON grammar.
//!
//! Verus has no byte-string literals, so each fragment is written out as
//! its ASCII codes: a spec sequence `l_<name>`, and an executable builder
//! `lit_<name>` producing the same bytes.  `eat_lit` and `push_lit` are the
//! generic executable match and append over any such fragment.

use vstd::prelude::*;

verus! {

/// Literal match at `i`: succeeds exactly when the bytes at `i` are the
/// fragment, consuming it.
pub open spec fn parse_lit(s: Seq<u8>, i: int, lit: Seq<u8>) -> Option<int> {
    if 0 <= i && i + lit.len() <= s.len() && s.subrange(i, i + lit.len()) == lit {
        Some(i + lit.len())
    } else {
        None
    }
}

/// Executable literal match against any fragment.
pub fn eat_lit(s: &[u8], i: usize, lit: &Vec<u8>) -> (r: Option<usize>)
    ensures
        match r {
            Some(j) => parse_lit(s@, i as int, lit@) == Some(j as int) && i <= j <= s@.len(),
            None => parse_lit(s@, i as int, lit@) is None,
        },
{
    let n = lit.len();
    let slen = s.len();
    if slen < n || i > slen - n {
        return None;
    }
    let mut k: usize = 0;
    while k < n
        invariant
            k <= n,
            n == lit@.len(),
            slen == s@.len(),
            i + n <= slen,
            forall|t: int| 0 <= t < k ==> s@[i + t] == lit@[t],
        decreases n - k,
    {
        if s[i + k] != lit[k] {
            proof {
                assert(s@.subrange(i as int, i + n) != lit@) by {
                    if s@.subrange(i as int, i + n) == lit@ {
                        assert(s@.subrange(i as int, i + n)[k as int] == s@[i + k]);
                    }
                }
            }
            return None;
        }
        k = k + 1;
    }
    proof {
        assert(s@.subrange(i as int, i + n) =~= lit@);
    }
    Some(i + n)
}

/// Appends any fragment.
pub fn push_lit(out: &mut Vec<u8>, lit: &Vec<u8>)
    ensures
        final(out)@ == old(out)@ + lit@,
{
    let ghost base = out@;
    let mut k: usize = 0;
    while k < lit.len()
        invariant
            k <= lit@.len(),
            out@ == base + lit@.subrange(0, k as int),
        decreases lit@.len() - k,
    {
        let b = lit[k];
        out.push(b);
        proof {
            assert(out@ =~= base + lit@.subrange(0, k + 1));
        }
        k = k + 1;
    }
    proof {
        assert(out@ =~= base + lit@);
        assert(base == old(out)@);
    }
}

/// `{"direction":`
pub open spec fn l_dir_key() -> Seq<u8> {
    seq![123u8, 34u8, 100u8, 105u8, 114u8, 101u8, 99u8, 116u8, 105u8, 111u8, 110u8, 34u8, 58u8]
}

/// `{"direction":`, as bytes.
pub fn lit_dir_key() -> (v: Vec<u8>)
    ensures
        v@ == l_dir_key(),
{
    let mut v: Vec<u8> = Vec::new();
    v.push(123);
    v.push(34);
    v.push(100);
    v.push(105);
    v.push(114);
    v.push(101);
    v.push(99);
    v.push(116);
    v.push(105);
    v.push(111);
    v.push(110);
    v.push(34);
    v.push(58);
    proof {
        assert(v@ =~= l_dir_key());
    }
    v
}

/// `"clientToServer"`
pub open spec fn l_c2s() -> Seq<u8> {
    seq![34u8, 99u8, 108u8, 105u8, 101u8, 110u8, 116u8, 84u8, 111u8, 83u8, 101u8, 114u8, 118u8, 101u8, 114u8, 34u8]
}

/// `"clientToServer"`, as bytes.
pub fn lit_c2s() -> (v: Vec<u8>)
    ensures
        v@ == l_c2s(),
{
    let mut v: Vec<u8> = Vec::new();
    v.push(34);
    v.push(99);
    v.push(108);
    v.push(105);
    v.push(101);
    v.push(110);
    v.push(116);
    v.push(84);
    v.push(111);
    v.push(83);
    v.push(101);
    v.push(114);
    v.push(118);
    v.push(101);
    v.push(114);
    v.push(34);
    proof {
        assert(v@ =~= l_c2s());
    }
    v
}

/// `"serverToClient"`
pub open spec fn l_s2c() -> Seq<u8> {
    seq![34u8, 115u8, 101u8, 114u8, 118u8, 101u8, 114u8, 84u8, 111u8, 67u8, 108u8, 105u8, 101u8, 110u8, 116u8, 34u8]
}

/// `"serverToClient"`, as bytes.
pub fn lit_s2c() -> (v: Vec<u8>)
    ensures
        v@ == l_s2c(),
{
    let mut v: Vec<u8> = Vec::new();
    v.push(34);
    v.push(115);
    v.push(101);
    v.push(114);
    v.push(118);
    v.push(101);
    v.push(114);
    v.push(84);
    v.push(111);
    v.push(67);
    v.push(108);
    v.push(105);
    v.push(101);
    v.push(110);
    v.push(116);
    v.push(34);
    proof {
        assert(v@ =~= l_s2c());
    }
    v
}

/// `"bidirectional"`
pub open spec fn l_bidi() -> Seq<u8> {
    seq![34u8, 98u8, 105u8, 100u8, 105u8, 114u8, 101u8, 99u8, 116u8, 105u8, 111u8, 110u8, 97u8, 108u8, 34u8]
}

/// `"bidirectional"`, as bytes.
pub fn lit_bidi() -> (v: Vec<u8>)
    ensures
        v@ == l_bidi(),
{
    let mut v: Vec<u8> = Vec::new();
    v.push(34);
    v.push(98);
    v.push(105);
    v.push(100);
    v.push(105);
    v.push(114);
    v.push(101);
    v.push(99);
    v.push(116);
    v.push(105);
    v.push(111);
    v.push(110);
    v.push(97);
    v.push(108);
    v.push(34);
    proof {
        assert(v@ =~= l_bidi());
    }
    v
}

/// `,"protocol":`
pub open spec fn l_proto_key() -> Seq<u8> {
    seq![44u8, 34u8, 112u8, 114u8, 111u8, 116u8, 111u8, 99u8, 111u8, 108u8, 34u8, 58u8]
}

/// `,"protocol":`, as bytes.
pub fn lit_proto_key() -> (v: Vec<u8>)
    ensures
        v@ == l_proto_key(),
{
    let mut v: Vec<u8> = Vec::new();
    v.push(44);
    v.push(34);
    v.push(112);
    v.push(114);
    v.push(111);
    v.push(116);
    v.push(111);
    v.push(99);
    v.push(111);
    v.push(108);
    v.push(34);
    v.push(58);
    proof {
        assert(v@ =~= l_proto_key());
    }
    v
}

/// `"udp"`
pub open spec fn l_udp() -> Seq<u8> {
    seq![34u8, 117u8, 100u8, 112u8, 34u8]
}

/// `"udp"`, as bytes.
pub fn lit_udp() -> (v: Vec<u8>)
    ensures
        v@ == l_udp(),
{
    let mut v: Vec<u8> = Vec::new();
    v.push(34);
    v.push(117);
    v.push(100);
    v.push(112);
    v.push(34);
    proof {
        assert(v@ =~= l_udp());
    }
    v
}

/// `"dccp"`
pub open spec fn l_dccp() -> Seq<u8> {
    seq![34u8, 100u8, 99u8, 99u8, 112u8, 34u8]
}

/// `"dccp"`, as bytes.
pub fn lit_dccp() -> (v: Vec<u8>)
    ensures
        v@ == l_dccp(),
{
    let mut v: Vec<u8> = Vec::new();
    v.push(34);
    v.push(100);
    v.push(99);
    v.push(99);
    v.push(112);
    v.push(34);
    proof {
        assert(v@ =~= l_dccp());
    }
    v
}

/// `"sctp"`
pub open spec fn l_sctp() -> Seq<u8> {
    seq![34u8, 115u8, 99u8, 116u8, 112u8, 34u8]
}

/// `"sctp"`, as bytes.
pub fn lit_sctp() -> (v: Vec<u8>)
    ensures
        v@ == l_sctp(),
{
    let mut v: Vec<u8> = Vec::new();
    v.push(34);
    v.push(115);
    v.push(99);
    v.push(116);
    v.push(112);
    v.push(34);
    proof {
        assert(v@ =~= l_sctp());
    }
    v
}

/// `{"tcp":{"recvBufSize":`
pub open spec fn l_tcp_open() -> Seq<u8> {
    seq![123u8, 34u8, 116u8, 99u8, 112u8, 34u8, 58u8, 123u8, 34u8, 114u8, 101u8, 99u8, 118u8, 66u8, 117u8, 102u8, 83u8, 105u8, 122u8, 101u8, 34u8, 58u8]
}

/// `{"tcp":{"recvBufSize":`, as bytes.
pub fn lit_tcp_open() -> (v: Vec<u8>)
    ensures
        v@ == l_tcp_open(),
{
    let mut v: Vec<u8> = Vec::new();
    v.push(123);
    v.push(34);
    v.push(116);
    v.push(99);
    v.push(112);
    v.push(34);
    v.push(58);
    v.push(123);
    v.push(34);
    v.push(114);
    v.push(101);
    v.push(99);
    v.push(118);
    v.push(66);
    v.push(117);
    v.push(102);
    v.push(83);
    v.push(105);
    v.push(122);
    v.push(101);
    v.push(34);
    v.push(58);
    proof {
        assert(v@ =~= l_tcp_open());
    }
    v
}

/// `,"sendBufSize":`
pub open spec fn l_send_key() -> Seq<u8> {
    seq![44u8, 34u8, 115u8, 101u8, 110u8, 100u8, 66u8, 117u8, 102u8, 83u8, 105u8, 122u8, 101u8, 34u8, 58u8]
}

/// `,"sendBufSize":`, as bytes.
pub fn lit_send_key() -> (v: Vec<u8>)
    ensures
        v@ == l_send_key(),
{
    let mut v: Vec<u8> = Vec::new();
    v.push(44);
    v.push(34);
    v.push(115);
    v.push(101);
    v.push(110);
    v.push(100);
    v.push(66);
    v.push(117);
    v.push(102);
    v.push(83);
    v.push(105);
    v.push(122);
    v.push(101);
    v.push(34);
    v.push(58);
    proof {
        assert(v@ =~= l_send_key());
    }
    v
}

/// `}}`
pub open spec fn l_double_close() -> Seq<u8> {
    seq![125u8, 125u8]
}

/// `}}`, as bytes.
pub fn lit_double_close() -> (v: Vec<u8>)
    ensures
        v@ == l_double_close(),
{
    let mut v: Vec<u8> = Vec::new();
    v.push(125);
    v.push(125);
    proof {
        assert(v@ =~= l_double_close());
    }
    v
}

/// `,"bw":`
pub open spec fn l_bw_key() -> Seq<u8> {
    seq![44u8, 34u8, 98u8, 119u8, 34u8, 58u8]
}

/// `,"bw":`, as bytes.
pub fn lit_bw_key() -> (v: Vec<u8>)
    ensures
        v@ == l_bw_key(),
{
    let mut v: Vec<u8> = Vec::new();
    v.push(44);
    v.push(34);
    v.push(98);
    v.push(119);
    v.push(34);
    v.push(58);
    proof {
        assert(v@ =~= l_bw_key());
    }
    v
}

/// `,"code":[`
pub open spec fn l_code_key() -> Seq<u8> {
    seq![44u8, 34u8, 99u8, 111u8, 100u8, 101u8, 34u8, 58u8, 91u8]
}

/// `,"code":[`, as bytes.
pub fn lit_code_key() -> (v: Vec<u8>)
    ensures
        v@ == l_code_key(),
{
    let mut v: Vec<u8> = Vec::new();
    v.push(44);
    v.push(34);
    v.push(99);
    v.push(111);
    v.push(100);
    v.push(101);
    v.push(34);
    v.push(58);
    v.push(91);
    proof {
        assert(v@ =~= l_code_key());
    }
    v
}

/// `],"endCondition":`
pub open spec fn l_end_key() -> Seq<u8> {
    seq![93u8, 44u8, 34u8, 101u8, 110u8, 100u8, 67u8, 111u8, 110u8, 100u8, 105u8, 116u8, 105u8, 111u8, 110u8, 34u8, 58u8]
}

/// `],"endCondition":`, as bytes.
pub fn lit_end_key() -> (v: Vec<u8>)
    ensures
        v@ == l_end_key(),
{
    let mut v: Vec<u8> = Vec::new();
    v.push(93);
    v.push(44);
    v.push(34);
    v.push(101);
    v.push(110);
    v.push(100);
    v.push(67);
    v.push(111);
    v.push(110);
    v.push(100);
    v.push(105);
    v.push(116);
    v.push(105);
    v.push(111);
    v.push(110);
    v.push(34);
    v.push(58);
    proof {
        assert(v@ =~= l_end_key());
    }
    v
}

/// `{"time":{"secs":`
pub open spec fn l_time_open() -> Seq<u8> {
    seq![123u8, 34u8, 116u8, 105u8, 109u8, 101u8, 34u8, 58u8, 123u8, 34u8, 115u8, 101u8, 99u8, 115u8, 34u8, 58u8]
}

/// `{"time":{"secs":`, as bytes.
pub fn lit_time_open() -> (v: Vec<u8>)
    ensures
        v@ == l_time_open(),
{
    let mut v: Vec<u8> = Vec::new();
    v.push(123);
    v.push(34);
    v.push(116);
    v.push(105);
    v.push(109);
    v.push(101);
    v.push(34);
    v.push(58);
    v.push(123);
    v.push(34);
    v.push(115);
    v.push(101);
    v.push(99);
    v.push(115);
    v.push(34);
    v.push(58);
    proof {
        assert(v@ =~= l_time_open());
    }
    v
}

/// `,"nanos":`
pub open spec fn l_nanos_key() -> Seq<u8> {
    seq![44u8, 34u8, 110u8, 97u8, 110u8, 111u8, 115u8, 34u8, 58u8]
}

/// `,"nanos":`, as bytes.
pub fn lit_nanos_key() -> (v: Vec<u8>)
    ensures
        v@ == l_nanos_key(),
{
    let mut v: Vec<u8> = Vec::new();
    v.push(44);
    v.push(34);
    v.push(110);
    v.push(97);
    v.push(110);
    v.push(111);
    v.push(115);
    v.push(34);
    v.push(58);
    proof {
        assert(v@ =~= l_nanos_key());
    }
    v
}

/// `{"bytes":`
pub open spec fn l_bytes_open() -> Seq<u8> {
    seq![123u8, 34u8, 98u8, 121u8, 116u8, 101u8, 115u8, 34u8, 58u8]
}

/// `{"bytes":`, as bytes.
pub fn lit_bytes_open() -> (v: Vec<u8>)
    ensures
        v@ == l_bytes_open(),
{
    let mut v: Vec<u8> = Vec::new();
    v.push(123);
    v.push(34);
    v.push(98);
    v.push(121);
    v.push(116);
    v.push(101);
    v.push(115);
    v.push(34);
    v.push(58);
    proof {
        assert(v@ =~= l_bytes_open());
    }
    v
}

/// `}`
pub open spec fn l_close() -> Seq<u8> {
    seq![125u8]
}

/// `}`, as bytes.
pub fn lit_close() -> (v: Vec<u8>)
    ensures
        v@ == l_close(),
{
    let mut v: Vec<u8> = Vec::new();
    v.push(125);
    proof {
        assert(v@ =~= l_close());
    }
    v
}

/// `,`
pub open spec fn l_comma() -> Seq<u8> {
    seq![44u8]
}

/// `,`, as bytes.
pub fn lit_comma() -> (v: Vec<u8>)
    ensures
        v@ == l_comma(),
{
    let mut v: Vec<u8> = Vec::new();
    v.push(44);
    proof {
        assert(v@ =~= l_comma());
    }
    v
}

/// `{"code":[`
pub open spec fn l_assoc_open() -> Seq<u8> {
    seq![123u8, 34u8, 99u8, 111u8, 100u8, 101u8, 34u8, 58u8, 91u8]
}

/// `{"code":[`, as bytes.
pub fn lit_assoc_open() -> (v: Vec<u8>)
    ensures
        v@ == l_assoc_open(),
{
    let mut v: Vec<u8> = Vec::new();
    v.push(123);
    v.push(34);
    v.push(99);
    v.push(111);
    v.push(100);
    v.push(101);
    v.push(34);
    v.push(58);
    v.push(91);
    proof {
        assert(v@ =~= l_assoc_open());
    }
    v
}

/// `]}`
pub open spec fn l_assoc_close() -> Seq<u8> {
    seq![93u8, 125u8]
}

/// `]}`, as bytes.
pub fn lit_assoc_close() -> (v: Vec<u8>)
    ensures
        v@ == l_assoc_close(),
{
    let mut v: Vec<u8> = Vec::new();
    v.push(93);
    v.push(125);
    proof {
        assert(v@ =~= l_assoc_close());
    }
    v
}

} // verus!
