//! Length-prefixed codec for string values on a byte stream.
//!
//! A framed value is a 4-byte big-endian length followed by that many
//! payload bytes; the payload of a string is its compact binary
//! serialization. Session metadata is two framed strings: the version,
//! then the session name.

use vstd::prelude::*;

verus! {

/// Failure of `decode`: the input ended before a whole frame was read,
/// or the payload was not a valid string serialization.
#[derive(Clone, Copy, Debug, PartialEq, Eq, Structural)]
pub enum CodecError {
    Truncated,
    Malformed,
}

pub open spec fn spec_u32_to_be_bytes(x: u32) -> Seq<u8> {
    seq![
        ((x >> 24) & 0xff) as u8,
        ((x >> 16) & 0xff) as u8,
        ((x >> 8) & 0xff) as u8,
        (x & 0xff) as u8,
    ]
}

pub open spec fn spec_u32_from_be_bytes(s: Seq<u8>) -> u32
    recommends
        s.len() == 4,
{
    ((s[0] as u32) << 24) | ((s[1] as u32) << 16) | ((s[2] as u32) << 8) | (s[3] as u32)
}

pub proof fn lemma_u32_be_round_trip(x: u32)
    ensures
        spec_u32_to_be_bytes(x).len() == 4,
        spec_u32_from_be_bytes(spec_u32_to_be_bytes(x)) == x,
{
    assert((((((x >> 24) & 0xff) as u8) as u32) << 24) | (((((x >> 16) & 0xff) as u8) as u32)
        << 16) | (((((x >> 8) & 0xff) as u8) as u32) << 8) | (((x & 0xff) as u8) as u32) == x)
        by (bit_vector);
}

/// One frame: the payload's length as 4 big-endian bytes, then the payload.
pub open spec fn frame_bytes(payload: Seq<u8>) -> Seq<u8>
    recommends
        payload.len() <= u32::MAX,
{
    spec_u32_to_be_bytes(payload.len() as u32) + payload
}

/// Parse one frame off the front of `data`: the payload and the remainder,
/// or `None` when `data` ends inside the length prefix or the payload.
pub open spec fn parse_frame(data: Seq<u8>) -> Option<(Seq<u8>, Seq<u8>)> {
    if data.len() < 4 {
        None
    } else {
        let n = spec_u32_from_be_bytes(data.take(4)) as int;
        if data.len() < 4 + n {
            None
        } else {
            Some((data.subrange(4, 4 + n), data.skip(4 + n)))
        }
    }
}

/// Framing round trip: a frame followed by anything parses back to exactly
/// the framed payload and that remainder.
pub proof fn lemma_frame_round_trip(payload: Seq<u8>, rest: Seq<u8>)
    requires
        payload.len() <= u32::MAX,
    ensures
        parse_frame(frame_bytes(payload) + rest) == Some((payload, rest)),
{
    lemma_u32_be_round_trip(payload.len() as u32);
    let d = frame_bytes(payload) + rest;
    assert(d.take(4) =~= spec_u32_to_be_bytes(payload.len() as u32));
    let n = payload.len() as int;
    assert(d.subrange(4, 4 + n) =~= payload);
    assert(d.skip(4 + n) =~= rest);
}

pub fn u32_to_be_vec(x: u32) -> (r: Vec<u8>)
    ensures
        r@ == spec_u32_to_be_bytes(x),
{
    proof {
        assert((x >> 24) & 0xff < 256 && (x >> 16) & 0xff < 256 && (x >> 8) & 0xff < 256 && x
            & 0xff < 256) by (bit_vector);
    }
    let mut v: Vec<u8> = Vec::new();
    v.push(((x >> 24) & 0xff) as u8);
    v.push(((x >> 16) & 0xff) as u8);
    v.push(((x >> 8) & 0xff) as u8);
    v.push((x & 0xff) as u8);
    proof {
        assert(v@ =~= spec_u32_to_be_bytes(x));
    }
    v
}

pub fn u32_from_be_slice(b0: u8, b1: u8, b2: u8, b3: u8) -> (r: u32)
    ensures
        r == spec_u32_from_be_bytes(seq![b0, b1, b2, b3]),
{
    ((b0 as u32) << 24) | ((b1 as u32) << 16) | ((b2 as u32) << 8) | (b3 as u32)
}

/// Wrap `payload` in one frame, or `None` when it is too long for the
/// 4-byte length prefix.
pub fn encode_frame(payload: &Vec<u8>) -> (r: Option<Vec<u8>>)
    ensures
        r is Some <==> payload@.len() <= u32::MAX,
        r matches Some(v) ==> v@ == frame_bytes(payload@),
{
    if payload.len() > u32::MAX as usize {
        return None;
    }
    let mut out = u32_to_be_vec(payload.len() as u32);
    let mut i: usize = 0;
    while i < payload.len()
        invariant
            i <= payload@.len(),
            payload@.len() <= u32::MAX,
            out@ == spec_u32_to_be_bytes(payload@.len() as u32) + payload@.take(i as int),
        decreases payload@.len() - i,
    {
        out.push(payload[i]);
        i = i + 1;
        proof {
            assert(out@ =~= spec_u32_to_be_bytes(payload@.len() as u32) + payload@.take(i as int));
        }
    }
    proof {
        assert(payload@.take(payload@.len() as int) =~= payload@);
    }
    Some(out)
}

/// Parse one frame off the front of `data`, as `parse_frame` says:
/// the payload and the unread remainder, or `Truncated`.
pub fn decode_frame(data: &Vec<u8>) -> (r: Result<(Vec<u8>, Vec<u8>), CodecError>)
    ensures
        r is Ok <==> parse_frame(data@) is Some,
        r matches Ok(p) ==> parse_frame(data@) == Some((p.0@, p.1@)),
        r matches Err(e) ==> e == CodecError::Truncated,
{
    if data.len() < 4 {
        return Err(CodecError::Truncated);
    }
    let n32 = u32_from_be_slice(data[0], data[1], data[2], data[3]);
    proof {
        assert(data@.take(4) =~= seq![data@[0], data@[1], data@[2], data@[3]]);
    }
    let n = n32 as usize;
    if data.len() - 4 < n {
        return Err(CodecError::Truncated);
    }
    let end: usize = 4 + n;
    let mut payload: Vec<u8> = Vec::new();
    let mut i: usize = 4;
    while i < end
        invariant
            end == 4 + n,
            4 <= i <= end,
            end <= data@.len(),
            payload@ == data@.subrange(4, i as int),
        decreases end - i,
    {
        payload.push(data[i]);
        i = i + 1;
        proof {
            assert(payload@ =~= data@.subrange(4, i as int));
        }
    }
    let mut rest: Vec<u8> = Vec::new();
    let mut j: usize = end;
    while j < data.len()
        invariant
            end == 4 + n,
            end <= j <= data@.len(),
            rest@ == data@.subrange(4 + n as int, j as int),
        decreases data@.len() - j,
    {
        rest.push(data[j]);
        j = j + 1;
        proof {
            assert(rest@ =~= data@.subrange(4 + n as int, j as int));
        }
    }
    proof {
        assert(rest@ =~= data@.skip(4 + n as int));
    }
    Ok((payload, rest))
}

/// The compact binary serialization of a string: a function of its
/// characters alone.
pub uninterp spec fn string_payload(s: Seq<char>) -> Seq<u8>;

/// Declares `bincode::ErrorKind`, the error a failed deserialization
/// returns, so it can appear in signatures; it is opaque here.
#[verifier::external_type_specification]
#[verifier::external_body]
pub struct ExBincodeErrorKind(bincode::ErrorKind);

/// Relies on `bincode::serialize` with its default configuration: the
/// serialized form of a string depends on its characters alone. Plain
/// `serialize`, with no size limit configured, does not fail on a string.
#[verifier::external_body]
fn serialize_string(s: &String) -> (r: Vec<u8>)
    ensures
        r@ == string_payload(s@),
{
    bincode::serialize(s).unwrap()
}

/// Deserialization recovers serialization: whenever `b` begins with the
/// serialized form of some string, `r` is `Ok` with exactly that string.
pub open spec fn recovers_string(r: Result<String, Box<bincode::ErrorKind>>, b: Seq<u8>) -> bool {
    forall|s: Seq<char>, rest: Seq<u8>|
        #![trigger string_payload(s) + rest]
        b == string_payload(s) + rest ==> (r matches Ok(v) && v@ == s)
}

/// A success consumed a serialization: on `Ok`, `b` begins with the
/// serialized form of the returned string.
pub open spec fn decoded_from_prefix(
    r: Result<String, Box<bincode::ErrorKind>>,
    b: Seq<u8>,
) -> bool {
    r matches Ok(v) ==> string_payload(v@).len() <= b.len() && b.take(
        string_payload(v@).len() as int,
    ) == string_payload(v@)
}

/// Whether `b` begins with the serialized form of some string: exactly
/// the inputs deserialization accepts.
pub open spec fn holds_serialized_string(b: Seq<u8>) -> bool {
    exists|s: Seq<char>|
        (#[trigger] string_payload(s)).len() <= b.len() && b.take(string_payload(s).len() as int)
            == string_payload(s)
}

/// Relies on `bincode::deserialize` with its default configuration,
/// which reads one value and allows trailing bytes: on input beginning
/// with the output of `bincode::serialize` for a string it returns that
/// string, and on success the input indeed begins with the returned
/// string's serialization; any other input is an error.
#[verifier::external_body]
fn deserialize_string(b: &Vec<u8>) -> (r: Result<String, Box<bincode::ErrorKind>>)
    ensures
        recovers_string(r, b@),
        decoded_from_prefix(r, b@),
{
    bincode::deserialize(b.as_slice())
}

/// Serialize one string and wrap it in one frame, or `None` when the
/// serialized form is too long for the 4-byte length prefix.
pub fn encode_string(s: &String) -> (r: Option<Vec<u8>>)
    ensures
        r is Some <==> string_payload(s@).len() <= u32::MAX,
        r matches Some(v) ==> v@ == frame_bytes(string_payload(s@)),
{
    let payload = serialize_string(s);
    encode_frame(&payload)
}

/// Read one framed string off the front of `data`: the string and the
/// unread remainder. `Truncated` exactly when no whole frame is there;
/// `Malformed` exactly when the frame is whole but its payload does not
/// begin with a serialized string; `Ok` on everything else, with the
/// decoded string pinned wherever the payload is a serialization.
pub fn decode_string(data: &Vec<u8>) -> (r: Result<(String, Vec<u8>), CodecError>)
    ensures
        forall|s: Seq<char>, rest: Seq<u8>|
            #![trigger frame_bytes(string_payload(s)) + rest]
            string_payload(s).len() <= u32::MAX && data@ == frame_bytes(string_payload(s)) + rest
                ==> (r matches Ok(p) && p.0@ == s && p.1@ == rest),
        (r matches Err(e) && e is Truncated) <==> parse_frame(data@) is None,
        r is Ok <==> (parse_frame(data@) matches Some(pr) && holds_serialized_string(pr.0)),
        (r matches Err(e) && e is Malformed) <==> (parse_frame(data@) matches Some(pr)
            && !holds_serialized_string(pr.0)),
        r matches Ok(p) ==> (parse_frame(data@) matches Some(pr) && p.1@ == pr.1),
{
    let fr = decode_frame(data);
    match fr {
        Err(e) => {
            proof {
                assert forall|s: Seq<char>, rest: Seq<u8>|
                    #![trigger frame_bytes(string_payload(s)) + rest]
                    string_payload(s).len() <= u32::MAX && data@ == frame_bytes(string_payload(s))
                        + rest implies false by {
                    lemma_frame_round_trip(string_payload(s), rest);
                }
            }
            Err(e)
        },
        Ok((payload, rest)) => {
            let d = deserialize_string(&payload);
            match d {
                Ok(v) => {
                    proof {
                        assert forall|s: Seq<char>, rest2: Seq<u8>|
                            #![trigger frame_bytes(string_payload(s)) + rest2]
                            string_payload(s).len() <= u32::MAX && data@ == frame_bytes(
                                string_payload(s),
                            ) + rest2 implies v@ == s && rest@ == rest2 by {
                            lemma_frame_round_trip(string_payload(s), rest2);
                            assert(payload@ =~= string_payload(s) + Seq::<u8>::empty());
                        }
                        assert(string_payload(v@).len() <= payload@.len() && payload@.take(
                            string_payload(v@).len() as int,
                        ) == string_payload(v@));
                        assert(holds_serialized_string(payload@));
                    }
                    Ok((v, rest))
                },
                Err(_) => {
                    proof {
                        assert forall|s: Seq<char>, rest2: Seq<u8>|
                            #![trigger frame_bytes(string_payload(s)) + rest2]
                            string_payload(s).len() <= u32::MAX && data@ == frame_bytes(
                                string_payload(s),
                            ) + rest2 implies false by {
                            lemma_frame_round_trip(string_payload(s), rest2);
                            assert(payload@ =~= string_payload(s) + Seq::<u8>::empty());
                        }
                        assert(!holds_serialized_string(payload@)) by {
                            if holds_serialized_string(payload@) {
                                let s = choose|s: Seq<char>|
                                    (#[trigger] string_payload(s)).len() <= payload@.len()
                                        && payload@.take(string_payload(s).len() as int)
                                        == string_payload(s);
                                assert(payload@ =~= string_payload(s) + payload@.skip(
                                    string_payload(s).len() as int,
                                ));
                                assert(false);
                            }
                        }
                    }
                    Err(CodecError::Malformed)
                },
            }
        },
    }
}

/// The wire form of the session metadata: the version, then the session
/// name, each as one framed string, in that fixed order.
pub open spec fn meta_bytes(version: Seq<char>, name: Seq<char>) -> Seq<u8> {
    frame_bytes(string_payload(version)) + frame_bytes(string_payload(name))
}

/// Serialize the one metadata exchange of a run: the version, then the
/// session name.
pub fn encode_session_meta(version: &String, name: &String) -> (r: Option<Vec<u8>>)
    ensures
        r is Some <==> string_payload(version@).len() <= u32::MAX && string_payload(
            name@,
        ).len() <= u32::MAX,
        r matches Some(v) ==> v@ == meta_bytes(version@, name@),
{
    let first = encode_string(version);
    let second = encode_string(name);
    match (first, second) {
        (Some(mut a), Some(mut b)) => {
            a.append(&mut b);
            Some(a)
        },
        _ => None,
    }
}

/// Read the metadata exchange off the front of `data`: the version, the
/// session name, and the unread remainder.
pub fn decode_session_meta(data: &Vec<u8>) -> (r: Result<(String, String, Vec<u8>), CodecError>)
    ensures
        forall|v: Seq<char>, n: Seq<char>, rest: Seq<u8>|
            #![trigger meta_bytes(v, n) + rest]
            string_payload(v).len() <= u32::MAX && string_payload(n).len() <= u32::MAX && data@
                == meta_bytes(v, n) + rest ==> (r matches Ok(t) && t.0@ == v && t.1@ == n && t.2@
                == rest),
{
    let first = decode_string(data);
    match first {
        Err(e) => {
            proof {
                assert forall|v: Seq<char>, n: Seq<char>, rest: Seq<u8>|
                    #![trigger meta_bytes(v, n) + rest]
                    string_payload(v).len() <= u32::MAX && string_payload(n).len() <= u32::MAX
                        && data@ == meta_bytes(v, n) + rest implies false by {
                    assert(data@ =~= frame_bytes(string_payload(v)) + (frame_bytes(
                        string_payload(n),
                    ) + rest));
                }
            }
            Err(e)
        },
        Ok((version, mid)) => {
            proof {
                assert forall|v: Seq<char>, n: Seq<char>, rest: Seq<u8>|
                    #![trigger meta_bytes(v, n) + rest]
                    string_payload(v).len() <= u32::MAX && string_payload(n).len() <= u32::MAX
                        && data@ == meta_bytes(v, n) + rest implies version@ == v && mid@
                        == frame_bytes(string_payload(n)) + rest by {
                    assert(data@ =~= frame_bytes(string_payload(v)) + (frame_bytes(
                        string_payload(n),
                    ) + rest));
                }
            }
            let second = decode_string(&mid);
            match second {
                Err(e) => Err(e),
                Ok((name, rest)) => Ok((version, name, rest)),
            }
        },
    }
}

} // verus!
