//! Byte strings, numbers and list frames on the wire, as the `alloy-rlp` crate writes and reads
//! them.

use vstd::prelude::*;
use alloy_rlp::{Decodable, Encodable, Header};

verus! {

/// The decoding error of the `alloy-rlp` crate.
#[verifier::external_type_specification]
pub struct ExRlpError(alloy_rlp::Error);

/// Why bytes cannot be decoded.
#[derive(Clone, Copy, Debug, PartialEq, Eq, Structural)]
pub enum DecodeError {
    /// A number that does not fit its type.
    Overflow,
    /// A number with a leading zero byte.
    LeadingZero,
    /// The input ends before the value does.
    InputTooShort,
    /// A single byte below 0x80 that is written with a length prefix.
    NonCanonicalSingleByte,
    /// A length below 56 that is written in the long form.
    NonCanonicalSize,
    /// A payload of an unexpected length.
    UnexpectedLength,
    /// A byte string where a list is expected.
    UnexpectedString,
    /// A list where a byte string is expected.
    UnexpectedList,
    /// A list with an unexpected number of items.
    ListLengthMismatch,
    /// A length that the machine cannot hold.
    TooBig,
    /// A flag that is neither 0 nor 1.
    InvalidBool,
    /// A step that is none of the five.
    InvalidStep,
    /// A vote type that is neither prevote nor precommit.
    InvalidVoteType,
    /// A tag of an update that is none of the three.
    InvalidUpdateFrom,
}

/// The library's error for an error of the `alloy-rlp` crate.
pub open spec fn from_rlp_error(e: alloy_rlp::Error) -> DecodeError {
    match e {
        alloy_rlp::Error::Overflow => DecodeError::Overflow,
        alloy_rlp::Error::LeadingZero => DecodeError::LeadingZero,
        alloy_rlp::Error::InputTooShort => DecodeError::InputTooShort,
        alloy_rlp::Error::NonCanonicalSingleByte => DecodeError::NonCanonicalSingleByte,
        alloy_rlp::Error::NonCanonicalSize => DecodeError::NonCanonicalSize,
        alloy_rlp::Error::UnexpectedLength => DecodeError::UnexpectedLength,
        alloy_rlp::Error::UnexpectedString => DecodeError::UnexpectedString,
        alloy_rlp::Error::UnexpectedList => DecodeError::UnexpectedList,
        alloy_rlp::Error::ListLengthMismatch { .. } => DecodeError::ListLengthMismatch,
        alloy_rlp::Error::Custom(_) => DecodeError::TooBig,
    }
}

/// The library's error for an error of the `alloy-rlp` crate.
pub fn rlp_error(e: alloy_rlp::Error) -> (r: DecodeError)
    ensures
        r == from_rlp_error(e),
{
    match e {
        alloy_rlp::Error::Overflow => DecodeError::Overflow,
        alloy_rlp::Error::LeadingZero => DecodeError::LeadingZero,
        alloy_rlp::Error::InputTooShort => DecodeError::InputTooShort,
        alloy_rlp::Error::NonCanonicalSingleByte => DecodeError::NonCanonicalSingleByte,
        alloy_rlp::Error::NonCanonicalSize => DecodeError::NonCanonicalSize,
        alloy_rlp::Error::UnexpectedLength => DecodeError::UnexpectedLength,
        alloy_rlp::Error::UnexpectedString => DecodeError::UnexpectedString,
        alloy_rlp::Error::UnexpectedList => DecodeError::UnexpectedList,
        alloy_rlp::Error::ListLengthMismatch { .. } => DecodeError::ListLengthMismatch,
        alloy_rlp::Error::Custom(_) => DecodeError::TooBig,
    }
}

/// The digits of a number to the base 256, the most significant first, without leading zeros: no
/// digit for zero.
pub open spec fn be_bytes(v: nat) -> Seq<u8>
    decreases v,
{
    if v == 0 {
        Seq::empty()
    } else {
        be_bytes(v / 256).push((v % 256) as u8)
    }
}

/// The number that digits to the base 256 stand for, the most significant first.
pub open spec fn be_value(digits: Seq<u8>) -> nat
    decreases digits.len(),
{
    if digits.len() == 0 {
        0
    } else {
        be_value(digits.drop_last()) * 256 + digits.last() as nat
    }
}

/// The frame that precedes a payload: it tells whether the payload is a list or a byte string, and
/// how long it is. A length below 56 is added to the first byte; a greater length follows the
/// first byte in digits, whose number is added to the first byte.
pub open spec fn header(list: bool, len: nat) -> Seq<u8> {
    if len < 56 {
        seq![(if list { 0xc0 + len } else { 0x80 + len }) as u8]
    } else {
        seq![(if list { 0xf7 + be_bytes(len).len() } else { 0xb7 + be_bytes(len).len() }) as u8]
            + be_bytes(len)
    }
}

/// A byte string on the wire: a single byte below 0x80 stands for itself, every other byte string
/// follows its frame.
pub open spec fn enc_bytes(b: Seq<u8>) -> Seq<u8> {
    if b.len() == 1 && b[0] < 0x80 {
        b
    } else {
        header(false, b.len()) + b
    }
}

/// A number on the wire: the byte string of its digits.
pub open spec fn enc_uint(v: nat) -> Seq<u8> {
    if v == 0 {
        seq![0x80u8]
    } else if v < 0x80 {
        seq![v as u8]
    } else {
        seq![(0x80 + be_bytes(v).len()) as u8] + be_bytes(v)
    }
}

/// A list on the wire: the frame of the payload and the payload, which holds the items one after
/// the other.
pub open spec fn enc_list(payload: Seq<u8>) -> Seq<u8> {
    header(true, payload.len()) + payload
}

/// What the first bytes of the input say of the item that they begin.
pub struct Head {
    /// Whether the item is a list.
    pub list: bool,
    /// How many bytes precede the payload.
    pub prefix: nat,
    /// How many bytes the payload has.
    pub len: nat,
}

/// Reads the frame at the start of the input.
pub open spec fn head(buf: Seq<u8>) -> Result<Head, DecodeError> {
    if buf.len() == 0 {
        Err(DecodeError::InputTooShort)
    } else if buf[0] < 0x80 {
        Ok(Head { list: false, prefix: 0, len: 1 })
    } else if buf[0] <= 0xb7 {
        let len = (buf[0] - 0x80) as nat;
        if len == 1 && buf.len() < 2 {
            Err(DecodeError::InputTooShort)
        } else if len == 1 && buf[1] < 0x80 {
            Err(DecodeError::NonCanonicalSingleByte)
        } else if buf.len() - 1 < len {
            Err(DecodeError::InputTooShort)
        } else {
            Ok(Head { list: false, prefix: 1, len })
        }
    } else if buf[0] <= 0xbf || buf[0] >= 0xf8 {
        let list = buf[0] >= 0xf8;
        let n = (if list { buf[0] - 0xf7 } else { buf[0] - 0xb7 }) as nat;
        if buf.len() - 1 < n {
            Err(DecodeError::InputTooShort)
        } else if buf[1] == 0 {
            Err(DecodeError::LeadingZero)
        } else {
            let len = be_value(buf.subrange(1, 1 + n as int));
            if len > usize::MAX {
                Err(DecodeError::TooBig)
            } else if len < 56 {
                Err(DecodeError::NonCanonicalSize)
            } else if buf.len() - 1 - n < len {
                Err(DecodeError::InputTooShort)
            } else {
                Ok(Head { list, prefix: 1 + n, len })
            }
        }
    } else {
        let len = (buf[0] - 0xc0) as nat;
        if buf.len() - 1 < len {
            Err(DecodeError::InputTooShort)
        } else {
            Ok(Head { list: true, prefix: 1, len })
        }
    }
}

/// Takes the payload of the item at the start of the input, which must be a list or a byte string
/// as asked, and hands it back with the rest of the input.
pub open spec fn take(buf: Seq<u8>, is_list: bool) -> Result<(Seq<u8>, Seq<u8>), DecodeError> {
    match head(buf) {
        Err(e) => Err(e),
        Ok(h) => if h.list != is_list {
            Err(
                if is_list {
                    DecodeError::UnexpectedString
                } else {
                    DecodeError::UnexpectedList
                },
            )
        } else {
            Ok(
                (
                    buf.subrange(h.prefix as int, (h.prefix + h.len) as int),
                    buf.skip((h.prefix + h.len) as int),
                ),
            )
        },
    }
}

/// Takes the number at the start of the input, which must have no more digits than `width` and no
/// leading zero, and hands it back with the rest of the input.
pub open spec fn take_uint(buf: Seq<u8>, width: nat) -> Result<(nat, Seq<u8>), DecodeError> {
    match take(buf, false) {
        Err(e) => Err(e),
        Ok((digits, rest)) => if digits.len() > width {
            Err(DecodeError::Overflow)
        } else if digits.len() == 0 {
            Ok((0nat, rest))
        } else if digits[0] == 0 {
            Err(DecodeError::LeadingZero)
        } else {
            Ok((be_value(digits), rest))
        },
    }
}

/// `Header::encode` of the `alloy-rlp` crate: appends the frame of a payload of the given kind and
/// length.
#[verifier::external_body]
pub(crate) fn put_header(out: &mut Vec<u8>, list: bool, payload_length: usize)
    ensures
        final(out)@ == old(out)@ + header(list, payload_length as nat),
{
    Header { list, payload_length }.encode(out)
}

/// `Encodable::encode` for `u64` of the `alloy-rlp` crate: appends the number as the byte string
/// of its digits.
#[verifier::external_body]
pub(crate) fn put_u64(out: &mut Vec<u8>, v: u64)
    ensures
        final(out)@ == old(out)@ + enc_uint(v as nat),
{
    v.encode(out)
}

/// `Encodable::encode` for `u32` of the `alloy-rlp` crate: appends the number as the byte string
/// of its digits.
#[verifier::external_body]
pub(crate) fn put_u32(out: &mut Vec<u8>, v: u32)
    ensures
        final(out)@ == old(out)@ + enc_uint(v as nat),
{
    v.encode(out)
}

/// `Encodable::encode` for `u8` of the `alloy-rlp` crate: appends the number as the byte string of
/// its digit.
#[verifier::external_body]
pub(crate) fn put_u8(out: &mut Vec<u8>, v: u8)
    ensures
        final(out)@ == old(out)@ + enc_uint(v as nat),
{
    v.encode(out)
}

/// `Encodable::encode` for `[u8]` of the `alloy-rlp` crate: appends the byte string.
#[verifier::external_body]
pub(crate) fn put_bytes(out: &mut Vec<u8>, bytes: &[u8])
    ensures
        final(out)@ == old(out)@ + enc_bytes(bytes@),
{
    bytes.encode(out)
}

/// `Header::decode_bytes` of the `alloy-rlp` crate: reads the frame at the start of the input and
/// hands back the payload and the rest of the input, or the error that `take` names.
#[verifier::external_body]
pub(crate) fn take_payload<'a>(buf: &'a [u8], is_list: bool) -> (res: Result<
    (&'a [u8], &'a [u8]),
    alloy_rlp::Error,
>)
    ensures
        match take(buf@, is_list) {
            Ok((payload, rest)) => res is Ok && res->Ok_0.0@ == payload && res->Ok_0.1@ == rest,
            Err(e) => res is Err && from_rlp_error(res->Err_0) == e,
        },
{
    let mut rest = buf;
    match Header::decode_bytes(&mut rest, is_list) {
        Ok(payload) => Ok((payload, rest)),
        Err(e) => Err(e),
    }
}

/// `Decodable::decode` for `u64` of the `alloy-rlp` crate: reads a number of at most eight digits
/// and hands it back with the rest of the input, or the error that `take_uint` names.
#[verifier::external_body]
pub(crate) fn take_u64<'a>(buf: &'a [u8]) -> (res: Result<(u64, &'a [u8]), alloy_rlp::Error>)
    ensures
        match take_uint(buf@, 8) {
            Ok((v, rest)) => res is Ok && res->Ok_0.0 == v && res->Ok_0.1@ == rest,
            Err(e) => res is Err && from_rlp_error(res->Err_0) == e,
        },
{
    let mut rest = buf;
    match u64::decode(&mut rest) {
        Ok(v) => Ok((v, rest)),
        Err(e) => Err(e),
    }
}

/// `Decodable::decode` for `u32` of the `alloy-rlp` crate: reads a number of at most four digits
/// and hands it back with the rest of the input, or the error that `take_uint` names.
#[verifier::external_body]
pub(crate) fn take_u32<'a>(buf: &'a [u8]) -> (res: Result<(u32, &'a [u8]), alloy_rlp::Error>)
    ensures
        match take_uint(buf@, 4) {
            Ok((v, rest)) => res is Ok && res->Ok_0.0 == v && res->Ok_0.1@ == rest,
            Err(e) => res is Err && from_rlp_error(res->Err_0) == e,
        },
{
    let mut rest = buf;
    match u32::decode(&mut rest) {
        Ok(v) => Ok((v, rest)),
        Err(e) => Err(e),
    }
}

/// `Decodable::decode` for `u8` of the `alloy-rlp` crate: reads a number of at most one digit and
/// hands it back with the rest of the input, or the error that `take_uint` names.
#[verifier::external_body]
pub(crate) fn take_u8<'a>(buf: &'a [u8]) -> (res: Result<(u8, &'a [u8]), alloy_rlp::Error>)
    ensures
        match take_uint(buf@, 1) {
            Ok((v, rest)) => res is Ok && res->Ok_0.0 == v && res->Ok_0.1@ == rest,
            Err(e) => res is Err && from_rlp_error(res->Err_0) == e,
        },
{
    let mut rest = buf;
    match u8::decode(&mut rest) {
        Ok(v) => Ok((v, rest)),
        Err(e) => Err(e),
    }
}

/// The digits of a number stand for the number.
pub proof fn lemma_be_value_of_bytes(v: nat)
    ensures
        be_value(be_bytes(v)) == v,
    decreases v,
{
    if v > 0 {
        lemma_be_value_of_bytes(v / 256);
        assert(be_bytes(v).drop_last() =~= be_bytes(v / 256));
    }
}

/// A number above zero has digits, and the first is not zero.
pub proof fn lemma_be_bytes_lead(v: nat)
    requires
        v > 0,
    ensures
        be_bytes(v).len() > 0,
        be_bytes(v)[0] != 0,
    decreases v,
{
    if v / 256 > 0 {
        lemma_be_bytes_lead(v / 256);
    } else {
        assert(be_bytes(v / 256).len() == 0);
    }
}

/// 256 to the power of `k`.
pub open spec fn pow256(k: nat) -> nat
    decreases k,
{
    if k == 0 {
        1
    } else {
        256 * pow256((k - 1) as nat)
    }
}

/// A number below 256 to the power of `k` has at most `k` digits.
pub proof fn lemma_be_bytes_len(v: nat, k: nat)
    requires
        v < pow256(k),
    ensures
        be_bytes(v).len() <= k,
    decreases k,
{
    if v > 0 {
        let lower = pow256((k - 1) as nat);
        assert(v / 256 < lower) by (nonlinear_arith)
            requires
                v < 256 * lower,
        ;
        lemma_be_bytes_len(v / 256, (k - 1) as nat);
    }
}

/// A number that fits 64 bits has at most eight digits, one that fits 32 bits at most four, one
/// below 256 at most one.
pub proof fn lemma_be_bytes_width(v: nat)
    ensures
        v <= u64::MAX ==> be_bytes(v).len() <= 8,
        v <= usize::MAX ==> be_bytes(v).len() <= 8,
        v <= u32::MAX ==> be_bytes(v).len() <= 4,
        v < 256 ==> be_bytes(v).len() <= 1,
{
    reveal_with_fuel(pow256, 9);
    assert(pow256(8) == 0x1_0000_0000_0000_0000);
    assert(pow256(4) == 0x1_0000_0000);
    assert(pow256(1) == 256);
    if v <= u64::MAX {
        lemma_be_bytes_len(v, 8);
    }
    if v <= u32::MAX {
        lemma_be_bytes_len(v, 4);
    }
    if v < 256 {
        lemma_be_bytes_len(v, 1);
    }
}

/// A framed payload is read back as it was written: the frame of a list before any payload, and
/// the frame of a byte string before any payload but a single byte below 0x80.
pub proof fn lemma_take_framed(list: bool, payload: Seq<u8>, rest: Seq<u8>)
    requires
        payload.len() <= usize::MAX,
        list || !(payload.len() == 1 && payload[0] < 0x80),
    ensures
        take(header(list, payload.len()) + payload + rest, list) == Ok::<
            (Seq<u8>, Seq<u8>),
            DecodeError,
        >((payload, rest)),
{
    let len = payload.len();
    let buf = header(list, len) + payload + rest;
    if len < 56 {
        assert(buf[0] == (if list { 0xc0 + len } else { 0x80 + len }) as u8);
        if !list && len == 1 {
            assert(buf[1] == payload[0]);
        }
        assert(buf.subrange(1, 1 + len as int) =~= payload);
        assert(buf.skip(1 + len as int) =~= rest);
    } else {
        let digits = be_bytes(len);
        let n = digits.len();
        lemma_be_bytes_width(len);
        lemma_be_bytes_lead(len);
        lemma_be_value_of_bytes(len);
        assert(buf[0] == (if list { 0xf7 + n } else { 0xb7 + n }) as u8);
        assert(buf[1] == digits[0]);
        assert(buf.subrange(1, 1 + n as int) =~= digits);
        assert(buf.subrange(1 + n as int, 1 + n + len as int) =~= payload);
        assert(buf.skip(1 + n + len as int) =~= rest);
    }
}

/// A byte string is read back as it was written.
pub proof fn lemma_take_bytes(b: Seq<u8>, rest: Seq<u8>)
    requires
        b.len() <= usize::MAX,
    ensures
        take(enc_bytes(b) + rest, false) == Ok::<(Seq<u8>, Seq<u8>), DecodeError>((b, rest)),
{
    if b.len() == 1 && b[0] < 0x80 {
        let buf = b + rest;
        assert(buf[0] == b[0]);
        assert(buf.subrange(0, 1) =~= b);
        assert(buf.skip(1) =~= rest);
    } else {
        lemma_take_framed(false, b, rest);
    }
}

/// What reading gave is what the wire format says: the value and the rest of the input, or the
/// error.
pub open spec fn reads<T: View>(
    res: Result<(T, &[u8]), DecodeError>,
    says: Result<(T::V, Seq<u8>), DecodeError>,
) -> bool {
    match says {
        Ok((v, rest)) => res is Ok && res->Ok_0.0@ == v && res->Ok_0.1@ == rest,
        Err(e) => res is Err && res->Err_0 == e,
    }
}

/// Reads the frame at the start of the input and hands back the payload and the rest.
pub fn read_payload<'a>(buf: &'a [u8], is_list: bool)
    -> (res: Result<(&'a [u8], &'a [u8]), DecodeError>)
    ensures
        match take(buf@, is_list) {
            Ok((payload, rest)) => res is Ok && res->Ok_0.0@ == payload && res->Ok_0.1@ == rest,
            Err(e) => res is Err && res->Err_0 == e,
        },
{
    match take_payload(buf, is_list) {
        Ok(found) => Ok(found),
        Err(e) => Err(rlp_error(e)),
    }
}

/// A number of 64 bits at the start of the input.
pub open spec fn take_u64_spec(buf: Seq<u8>) -> Result<(u64, Seq<u8>), DecodeError> {
    match take_uint(buf, 8) {
        Ok((v, rest)) => Ok((v as u64, rest)),
        Err(e) => Err(e),
    }
}

/// Reads a number of 64 bits.
pub fn read_u64<'a>(buf: &'a [u8]) -> (res: Result<(u64, &'a [u8]), DecodeError>)
    ensures
        reads(res, take_u64_spec(buf@)),
{
    match take_u64(buf) {
        Ok(found) => Ok(found),
        Err(e) => Err(rlp_error(e)),
    }
}

/// A number of 32 bits at the start of the input.
pub open spec fn take_u32_spec(buf: Seq<u8>) -> Result<(u32, Seq<u8>), DecodeError> {
    match take_uint(buf, 4) {
        Ok((v, rest)) => Ok((v as u32, rest)),
        Err(e) => Err(e),
    }
}

/// Reads a number of 32 bits.
pub fn read_u32<'a>(buf: &'a [u8]) -> (res: Result<(u32, &'a [u8]), DecodeError>)
    ensures
        reads(res, take_u32_spec(buf@)),
{
    match take_u32(buf) {
        Ok(found) => Ok(found),
        Err(e) => Err(rlp_error(e)),
    }
}

/// A number of 8 bits at the start of the input.
pub open spec fn take_u8_spec(buf: Seq<u8>) -> Result<(u8, Seq<u8>), DecodeError> {
    match take_uint(buf, 1) {
        Ok((v, rest)) => Ok((v as u8, rest)),
        Err(e) => Err(e),
    }
}

/// Reads a number of 8 bits.
pub fn read_u8<'a>(buf: &'a [u8]) -> (res: Result<(u8, &'a [u8]), DecodeError>)
    ensures
        reads(res, take_u8_spec(buf@)),
{
    match take_u8(buf) {
        Ok(found) => Ok(found),
        Err(e) => Err(rlp_error(e)),
    }
}

/// A flag on the wire: the number 1 for true, 0 for false.
pub open spec fn enc_bool(b: bool) -> Seq<u8> {
    enc_uint(if b { 1nat } else { 0nat })
}

/// A flag at the start of the input.
pub open spec fn take_bool(buf: Seq<u8>) -> Result<(bool, Seq<u8>), DecodeError> {
    match take_u8_spec(buf) {
        Ok((v, rest)) => if v == 0 {
            Ok((false, rest))
        } else if v == 1 {
            Ok((true, rest))
        } else {
            Err(DecodeError::InvalidBool)
        },
        Err(e) => Err(e),
    }
}

/// Writes a flag.
pub fn write_bool(out: &mut Vec<u8>, b: bool)
    ensures
        final(out)@ == old(out)@ + enc_bool(b),
{
    if b {
        out.push(1u8);
    } else {
        out.push(0x80u8);
    }
    assert(out@ =~= old(out)@ + enc_bool(b));
}

/// Reads a flag.
pub fn read_bool<'a>(buf: &'a [u8]) -> (res: Result<(bool, &'a [u8]), DecodeError>)
    ensures
        reads(res, take_bool(buf@)),
{
    let (v, rest) = read_u8(buf)?;
    if v == 0 {
        Ok((false, rest))
    } else if v == 1 {
        Ok((true, rest))
    } else {
        Err(DecodeError::InvalidBool)
    }
}

/// A byte string at the start of the input.
pub open spec fn take_bytes(buf: Seq<u8>) -> Result<(Seq<u8>, Seq<u8>), DecodeError> {
    take(buf, false)
}

/// Reads a byte string.
pub fn read_bytes<'a>(buf: &'a [u8]) -> (res: Result<(Vec<u8>, &'a [u8]), DecodeError>)
    ensures
        reads(res, take_bytes(buf@)),
{
    let (payload, rest) = read_payload(buf, false)?;
    Ok((vstd::slice::slice_to_vec(payload), rest))
}

/// Writes a list: the frame of the payload, then the payload.
pub fn write_list(out: &mut Vec<u8>, payload: &Vec<u8>)
    ensures
        final(out)@ == old(out)@ + enc_list(payload@),
{
    put_header(out, true, payload.len());
    out.extend_from_slice(payload.as_slice());
    assert(out@ =~= old(out)@ + enc_list(payload@));
}

/// A number of 64 bits is read back as it was written.
pub proof fn lemma_take_u64(v: u64, rest: Seq<u8>)
    ensures
        take_u64_spec(enc_uint(v as nat) + rest) == Ok::<(u64, Seq<u8>), DecodeError>((v, rest)),
{
    lemma_be_bytes_width(v as nat);
    lemma_take_uint(v as nat, 8, rest);
}

/// A number of up to 64 bits is read back as it was written, where it has no more digits than
/// are read.
proof fn lemma_take_uint(v: nat, width: nat, rest: Seq<u8>)
    requires
        v <= u64::MAX,
        be_bytes(v).len() <= width,
    ensures
        take_uint(enc_uint(v) + rest, width) == Ok::<(nat, Seq<u8>), DecodeError>((v, rest)),
{
    let digits = be_bytes(v);
    lemma_be_value_of_bytes(v);
    lemma_be_bytes_width(v);
    if v == 0 {
        assert(digits =~= Seq::<u8>::empty());
    } else {
        lemma_be_bytes_lead(v);
        if v < 0x80 {
            assert(be_bytes(v / 256) =~= Seq::<u8>::empty());
            assert(digits =~= seq![v as u8]);
        } else if digits.len() == 1 {
            assert(be_value(digits.drop_last()) == 0) by {
                assert(digits.drop_last() =~= Seq::<u8>::empty());
            }
            assert(digits[0] >= 0x80);
        }
    }
    assert(enc_uint(v) =~= enc_bytes(digits));
    lemma_take_bytes(digits, rest);
}

/// A number of 32 bits is read back as it was written.
pub proof fn lemma_take_u32(v: u32, rest: Seq<u8>)
    ensures
        take_u32_spec(enc_uint(v as nat) + rest) == Ok::<(u32, Seq<u8>), DecodeError>((v, rest)),
{
    lemma_be_bytes_width(v as nat);
    lemma_take_uint(v as nat, 4, rest);
}

/// A number of 8 bits is read back as it was written.
pub proof fn lemma_take_u8(v: u8, rest: Seq<u8>)
    ensures
        take_u8_spec(enc_uint(v as nat) + rest) == Ok::<(u8, Seq<u8>), DecodeError>((v, rest)),
{
    lemma_be_bytes_width(v as nat);
    lemma_take_uint(v as nat, 1, rest);
}

/// A flag is read back as it was written.
pub proof fn lemma_take_bool(b: bool, rest: Seq<u8>)
    ensures
        take_bool(enc_bool(b) + rest) == Ok::<(bool, Seq<u8>), DecodeError>((b, rest)),
{
    lemma_take_u8(if b { 1u8 } else { 0u8 }, rest);
}

/// Taking an item takes at least one byte of the input.
pub proof fn lemma_take_consumes(buf: Seq<u8>, is_list: bool)
    ensures
        match take(buf, is_list) {
            Ok((payload, rest)) => rest.len() < buf.len() && payload.len() <= buf.len(),
            Err(_) => true,
        },
{
}

/// The numbers of 8 bits one after the other.
pub open spec fn enc_each_u8(items: Seq<u8>) -> Seq<u8>
    decreases items.len(),
{
    if items.len() == 0 {
        Seq::empty()
    } else {
        enc_uint(items[0] as nat) + enc_each_u8(items.skip(1))
    }
}

/// A list of numbers of 8 bits on the wire.
pub open spec fn enc_u8_list(items: Seq<u8>) -> Seq<u8> {
    enc_list(enc_each_u8(items))
}

/// Takes numbers of 8 bits until the payload ends.
pub open spec fn take_each_u8(payload: Seq<u8>) -> Result<Seq<u8>, DecodeError>
    decreases payload.len(),
{
    if payload.len() == 0 {
        Ok(Seq::empty())
    } else {
        match take_u8_spec(payload) {
            Err(e) => Err(e),
            Ok((v, rest)) => if rest.len() >= payload.len() {
                Err(DecodeError::InputTooShort)
            } else {
                match take_each_u8(rest) {
                    Err(e) => Err(e),
                    Ok(more) => Ok(seq![v] + more),
                }
            },
        }
    }
}

/// A list of numbers of 8 bits at the start of the input.
pub open spec fn take_u8_list(buf: Seq<u8>) -> Result<(Seq<u8>, Seq<u8>), DecodeError> {
    match take(buf, true) {
        Err(e) => Err(e),
        Ok((payload, rest)) => match take_each_u8(payload) {
            Err(e) => Err(e),
            Ok(items) => Ok((items, rest)),
        },
    }
}

/// Writes a list of numbers of 8 bits.
pub fn write_u8_list(out: &mut Vec<u8>, items: &Vec<u8>)
    ensures
        final(out)@ == old(out)@ + enc_u8_list(items@),
{
    let mut payload: Vec<u8> = Vec::new();
    let mut i: usize = 0;
    proof {
        assert(items@.skip(0) =~= items@);
        assert(payload@ + enc_each_u8(items@) =~= enc_each_u8(items@));
    }
    while i < items.len()
        invariant
            i <= items.len(),
            payload@ + enc_each_u8(items@.skip(i as int)) == enc_each_u8(items@),
        decreases items.len() - i,
    {
        let ghost before = payload@;
        put_u8(&mut payload, items[i]);
        proof {
            assert(items@.skip(i as int)[0] == items@[i as int]);
            assert(items@.skip(i as int).skip(1) =~= items@.skip(i + 1));
            assert(payload@ + enc_each_u8(items@.skip(i + 1)) =~= before + enc_each_u8(
                items@.skip(i as int),
            ));
        }
        i += 1;
    }
    proof {
        assert(enc_each_u8(items@.skip(i as int)) =~= Seq::<u8>::empty());
        assert(payload@ =~= enc_each_u8(items@));
    }
    write_list(out, &payload);
}

/// Reads a list of numbers of 8 bits.
pub fn read_u8_list<'a>(buf: &'a [u8]) -> (res: Result<(Vec<u8>, &'a [u8]), DecodeError>)
    ensures
        reads(res, take_u8_list(buf@)),
{
    let (payload, rest) = read_payload(buf, true)?;
    let mut items: Vec<u8> = Vec::new();
    let mut left = payload;
    while left.len() > 0
        invariant
            take(buf@, true) == Ok::<(Seq<u8>, Seq<u8>), DecodeError>((payload@, rest@)),
            take_each_u8(payload@) == match take_each_u8(left@) {
                Ok(more) => Ok::<Seq<u8>, DecodeError>(items@ + more),
                Err(e) => Err(e),
            },
        decreases left.len(),
    {
        proof {
            lemma_take_consumes(left@, false);
        }
        let (v, next) = read_u8(left)?;
        proof {
            let more = take_each_u8(next@);
            if more is Ok {
                assert(items@.push(v) + more->Ok_0 =~= items@ + (seq![v] + more->Ok_0));
            }
        }
        items.push(v);
        left = next;
    }
    proof {
        assert(items@ + Seq::<u8>::empty() =~= items@);
    }
    Ok((items, rest))
}

/// What is written for each number of a list is read back as the list.
pub proof fn lemma_take_each_u8(items: Seq<u8>)
    ensures
        take_each_u8(enc_each_u8(items)) == Ok::<Seq<u8>, DecodeError>(items),
    decreases items.len(),
{
    if items.len() > 0 {
        let tail = enc_each_u8(items.skip(1));
        let payload = enc_each_u8(items);
        lemma_take_u8(items[0], tail);
        lemma_take_each_u8(items.skip(1));
        assert(seq![items[0]] + items.skip(1) =~= items);
        assert(enc_uint(items[0] as nat).len() > 0);
        assert(payload == enc_uint(items[0] as nat) + tail);
        assert(take_u8_spec(payload) == Ok::<(u8, Seq<u8>), DecodeError>((items[0], tail)));
        assert(tail.len() < payload.len());
        assert(take_each_u8(tail) == Ok::<Seq<u8>, DecodeError>(items.skip(1)));
    } else {
        assert(items =~= Seq::<u8>::empty());
    }
}

/// A list of numbers of 8 bits is read back as it was written.
pub proof fn lemma_take_u8_list(items: Seq<u8>, rest: Seq<u8>)
    requires
        enc_each_u8(items).len() <= usize::MAX,
    ensures
        take_u8_list(enc_u8_list(items) + rest) == Ok::<(Seq<u8>, Seq<u8>), DecodeError>(
            (items, rest),
        ),
{
    lemma_take_framed(true, enc_each_u8(items), rest);
    lemma_take_each_u8(items);
}

/// The byte strings one after the other.
pub open spec fn enc_each_bytes(items: Seq<Seq<u8>>) -> Seq<u8>
    decreases items.len(),
{
    if items.len() == 0 {
        Seq::empty()
    } else {
        enc_bytes(items[0]) + enc_each_bytes(items.skip(1))
    }
}

/// A list of byte strings on the wire.
pub open spec fn enc_bytes_list(items: Seq<Seq<u8>>) -> Seq<u8> {
    enc_list(enc_each_bytes(items))
}

/// Takes byte strings until the payload ends.
pub open spec fn take_each_bytes(payload: Seq<u8>) -> Result<Seq<Seq<u8>>, DecodeError>
    decreases payload.len(),
{
    if payload.len() == 0 {
        Ok(Seq::empty())
    } else {
        match take(payload, false) {
            Err(e) => Err(e),
            Ok((v, rest)) => if rest.len() >= payload.len() {
                Err(DecodeError::InputTooShort)
            } else {
                match take_each_bytes(rest) {
                    Err(e) => Err(e),
                    Ok(more) => Ok(seq![v] + more),
                }
            },
        }
    }
}

/// A list of byte strings at the start of the input.
pub open spec fn take_bytes_list(buf: Seq<u8>) -> Result<(Seq<Seq<u8>>, Seq<u8>), DecodeError> {
    match take(buf, true) {
        Err(e) => Err(e),
        Ok((payload, rest)) => match take_each_bytes(payload) {
            Err(e) => Err(e),
            Ok(items) => Ok((items, rest)),
        },
    }
}

/// Writes a list of byte strings.
pub fn write_bytes_list(out: &mut Vec<u8>, items: &Vec<Vec<u8>>)
    ensures
        final(out)@ == old(out)@ + enc_bytes_list(items.deep_view()),
{
    let ghost all = items.deep_view();
    let mut payload: Vec<u8> = Vec::new();
    let mut i: usize = 0;
    proof {
        crate::types::lemma_byte_strings_view(*items);
        assert(all.skip(0) =~= all);
        assert(payload@ + enc_each_bytes(all) =~= enc_each_bytes(all));
    }
    while i < items.len()
        invariant
            i <= items.len(),
            all == items.deep_view(),
            all.len() == items@.len(),
            forall|k: int| 0 <= k < items@.len() ==> #[trigger] all[k] == items@[k]@,
            payload@ + enc_each_bytes(all.skip(i as int)) == enc_each_bytes(all),
        decreases items.len() - i,
    {
        let ghost before = payload@;
        put_bytes(&mut payload, items[i].as_slice());
        proof {
            assert(all.skip(i as int)[0] == all[i as int]);
            assert(all.skip(i as int).skip(1) =~= all.skip(i + 1));
            assert(payload@ + enc_each_bytes(all.skip(i + 1)) =~= before + enc_each_bytes(
                all.skip(i as int),
            ));
        }
        i += 1;
    }
    proof {
        assert(enc_each_bytes(all.skip(i as int)) =~= Seq::<u8>::empty());
        assert(payload@ =~= enc_each_bytes(all));
    }
    write_list(out, &payload);
}

/// Reads a list of byte strings.
pub fn read_bytes_list<'a>(buf: &'a [u8]) -> (res: Result<(Vec<Vec<u8>>, &'a [u8]), DecodeError>)
    ensures
        match take_bytes_list(buf@) {
            Ok((items, rest)) => res is Ok && res->Ok_0.0.deep_view() == items && res->Ok_0.1@
                == rest,
            Err(e) => res is Err && res->Err_0 == e,
        },
{
    let (payload, rest) = read_payload(buf, true)?;
    let mut items: Vec<Vec<u8>> = Vec::new();
    let mut left = payload;
    proof {
        crate::types::lemma_byte_strings_view(items);
        assert(items.deep_view() =~= Seq::<Seq<u8>>::empty());
        let more = take_each_bytes(left@);
        if more is Ok {
            assert(items.deep_view() + more->Ok_0 =~= more->Ok_0);
        }
    }
    while left.len() > 0
        invariant
            take(buf@, true) == Ok::<(Seq<u8>, Seq<u8>), DecodeError>((payload@, rest@)),
            take_each_bytes(payload@) == match take_each_bytes(left@) {
                Ok(more) => Ok::<Seq<Seq<u8>>, DecodeError>(items.deep_view() + more),
                Err(e) => Err(e),
            },
        decreases left.len(),
    {
        proof {
            lemma_take_consumes(left@, false);
        }
        let (v, next) = read_bytes(left)?;
        let ghost before = items.deep_view();
        let ghost held = items;
        items.push(v);
        proof {
            crate::types::lemma_byte_strings_view(held);
            crate::types::lemma_byte_strings_view(items);
            assert(items.deep_view() =~= before.push(v@));
            let more = take_each_bytes(next@);
            if more is Ok {
                assert(before.push(v@) + more->Ok_0 =~= before + (seq![v@] + more->Ok_0));
            }
        }
        left = next;
    }
    proof {
        assert(items.deep_view() + Seq::<Seq<u8>>::empty() =~= items.deep_view());
    }
    Ok((items, rest))
}

/// What is written for each byte string of a list is read back as the list.
pub proof fn lemma_take_each_bytes(items: Seq<Seq<u8>>)
    requires
        enc_each_bytes(items).len() <= usize::MAX,
    ensures
        take_each_bytes(enc_each_bytes(items)) == Ok::<Seq<Seq<u8>>, DecodeError>(items),
    decreases items.len(),
{
    if items.len() > 0 {
        let tail = enc_each_bytes(items.skip(1));
        let payload = enc_each_bytes(items);
        assert(payload == enc_bytes(items[0]) + tail);
        assert(items[0].len() <= enc_bytes(items[0]).len());
        lemma_take_bytes(items[0], tail);
        lemma_take_each_bytes(items.skip(1));
        assert(seq![items[0]] + items.skip(1) =~= items);
        assert(enc_bytes(items[0]).len() > 0);
        assert(take(payload, false) == Ok::<(Seq<u8>, Seq<u8>), DecodeError>((items[0], tail)));
        assert(tail.len() < payload.len());
        assert(take_each_bytes(tail) == Ok::<Seq<Seq<u8>>, DecodeError>(items.skip(1)));
    } else {
        assert(items =~= Seq::<Seq<u8>>::empty());
    }
}

/// A list of byte strings is read back as it was written.
pub proof fn lemma_take_bytes_list(items: Seq<Seq<u8>>, rest: Seq<u8>)
    requires
        enc_each_bytes(items).len() <= usize::MAX,
    ensures
        take_bytes_list(enc_bytes_list(items) + rest) == Ok::<(Seq<Seq<u8>>, Seq<u8>), DecodeError>(
            (items, rest),
        ),
{
    lemma_take_framed(true, enc_each_bytes(items), rest);
    lemma_take_each_bytes(items);
}

} // verus!
