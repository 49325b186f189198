//! Request encoder: builds the serialized JSON-RPC request envelope.
//!
//! A call descriptor's method name and parameter text are framed into the
//! canonical wire form `{"jsonrpc":"2.0","method":M,"params":P,"id":N}`,
//! where the method string is JSON-escaped, the parameter text (already a
//! JSON value) is spliced verbatim, and the identifier is written in decimal.

use vstd::prelude::*;
use vstd::string::StringSliceAdditionalSpecFns;
use vstd::string::StrSliceExecFns;
use vstd::utf8::encode_utf8;

verus! {

/// The decimal digits of `n`, as ASCII bytes, most significant first.
pub open spec fn dec_digits(n: nat) -> Seq<u8>
    decreases n,
{
    if n < 10 {
        seq![(48 + n) as u8]
    } else {
        dec_digits(n / 10).push((48 + n % 10) as u8)
    }
}

/// The lowercase hexadecimal digit for a nibble.
pub open spec fn spec_hex_digit(n: u8) -> u8 {
    if n < 10 {
        (48 + n) as u8
    } else {
        (87 + n) as u8
    }
}

/// How one byte of a JSON string body is written: the two-character escapes
/// for quote, backslash and the common control characters, `\u00XX` for the
/// remaining control bytes, and every other byte verbatim.
pub open spec fn escape_byte(b: u8) -> Seq<u8> {
    if b == 0x22 {
        seq![0x5cu8, 0x22u8]
    } else if b == 0x5c {
        seq![0x5cu8, 0x5cu8]
    } else if b == 0x08 {
        seq![0x5cu8, 0x62u8]
    } else if b == 0x09 {
        seq![0x5cu8, 0x74u8]
    } else if b == 0x0a {
        seq![0x5cu8, 0x6eu8]
    } else if b == 0x0c {
        seq![0x5cu8, 0x66u8]
    } else if b == 0x0d {
        seq![0x5cu8, 0x72u8]
    } else if b < 0x20 {
        seq![0x5cu8, 0x75u8, 0x30u8, 0x30u8, spec_hex_digit(b / 16), spec_hex_digit(b % 16)]
    } else {
        seq![b]
    }
}

/// A whole byte string escaped for inclusion in a JSON string literal.
pub open spec fn json_escaped(s: Seq<u8>) -> Seq<u8>
    decreases s.len(),
{
    if s.len() == 0 {
        Seq::empty()
    } else {
        escape_byte(s[0]) + json_escaped(s.drop_first())
    }
}

/// The exact bytes of the request envelope for a call with the given method
/// name, parameter text (JSON), and correlation identifier.
pub open spec fn spec_request_bytes(method: Seq<char>, params: Seq<char>, id: u64) -> Seq<u8> {
    encode_utf8("{\"jsonrpc\":\"2.0\",\"method\":\""@) + json_escaped(encode_utf8(method))
        + encode_utf8("\",\"params\":"@) + encode_utf8(params) + encode_utf8(",\"id\":"@)
        + dec_digits(id as nat) + encode_utf8("}"@)
}

proof fn lemma_json_escaped_append(a: Seq<u8>, b: Seq<u8>)
    ensures
        json_escaped(a + b) == json_escaped(a) + json_escaped(b),
    decreases a.len(),
{
    if a.len() == 0 {
        assert(a + b =~= b);
        assert(json_escaped(a) + json_escaped(b) =~= json_escaped(b));
    } else {
        assert((a + b).drop_first() =~= a.drop_first() + b);
        lemma_json_escaped_append(a.drop_first(), b);
        assert(json_escaped(a + b) =~= json_escaped(a) + json_escaped(b));
    }
}

fn push_digits(n: u64, out: &mut Vec<u8>)
    ensures
        final(out)@ == old(out)@ + dec_digits(n as nat),
    decreases n,
{
    if n < 10 {
        out.push((48 + n) as u8);
        assert(out@ =~= old(out)@ + dec_digits(n as nat));
    } else {
        push_digits(n / 10, out);
        out.push((48 + n % 10) as u8);
        assert(out@ =~= old(out)@ + dec_digits(n as nat));
    }
}

fn push_escaped(s: &[u8], out: &mut Vec<u8>)
    ensures
        final(out)@ == old(out)@ + json_escaped(s@),
{
    let n = s.len();
    let mut i: usize = 0;
    while i < n
        invariant
            n == s@.len(),
            i <= n,
            out@ == old(out)@ + json_escaped(s@.take(i as int)),
        decreases n - i,
    {
        let b = s[i];
        if b == 0x22 {
            out.push(0x5c);
            out.push(0x22);
        } else if b == 0x5c {
            out.push(0x5c);
            out.push(0x5c);
        } else if b == 0x08 {
            out.push(0x5c);
            out.push(0x62);
        } else if b == 0x09 {
            out.push(0x5c);
            out.push(0x74);
        } else if b == 0x0a {
            out.push(0x5c);
            out.push(0x6e);
        } else if b == 0x0c {
            out.push(0x5c);
            out.push(0x66);
        } else if b == 0x0d {
            out.push(0x5c);
            out.push(0x72);
        } else if b < 0x20 {
            out.push(0x5c);
            out.push(0x75);
            out.push(0x30);
            out.push(0x30);
            out.push(if b / 16 < 10 { 48 + b / 16 } else { 87 + b / 16 });
            out.push(if b % 16 < 10 { 48 + b % 16 } else { 87 + b % 16 });
        } else {
            out.push(b);
        }
        proof {
            let single = seq![s@[i as int]];
            assert(s@.take(i + 1) =~= s@.take(i as int) + single);
            lemma_json_escaped_append(s@.take(i as int), single);
            assert(single.drop_first() =~= Seq::<u8>::empty());
            assert(json_escaped(single.drop_first()) == Seq::<u8>::empty());
            assert(json_escaped(single) =~= escape_byte(s@[i as int]));
            assert(out@ =~= old(out)@ + json_escaped(s@.take(i + 1)));
        }
        i = i + 1;
    }
    assert(s@.take(n as int) =~= s@);
}

/// Serialize the request envelope for one outgoing call.
///
/// `params` must already be the JSON text of the call's parameter value; the
/// envelope splices it verbatim, so the result is exactly the canonical wire
/// body for this method, parameter list and identifier.
pub fn encode_request(method: &str, params: &str, id: u64) -> (r: Vec<u8>)
    ensures
        r@ == spec_request_bytes(method@, params@, id),
{
    let mut out = "{\"jsonrpc\":\"2.0\",\"method\":\"".as_bytes_vec();
    push_escaped(method.as_bytes(), &mut out);
    let mut sep1 = "\",\"params\":".as_bytes_vec();
    out.append(&mut sep1);
    let mut body = params.as_bytes_vec();
    out.append(&mut body);
    let mut sep2 = ",\"id\":".as_bytes_vec();
    out.append(&mut sep2);
    push_digits(id, &mut out);
    let mut close = "}".as_bytes_vec();
    out.append(&mut close);
    assert(out@ =~= spec_request_bytes(method@, params@, id));
    out
}

} // verus!
