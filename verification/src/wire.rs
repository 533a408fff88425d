//! The byte layout of the payloads.
//!
//! Integers are variable-length as `bincode`'s standard configuration writes them, floating-point
//! values are their bit patterns in little-endian order, and structures are their fields in order.
//! Logs are written in this layout, so it is stated in full: what each payload encodes to, what
//! each decoder accepts, and that the one undoes the other.
use crate::geometry::{matrix_entries, RigidPose};
use crate::ieee::{Double, Single};
use crate::payload::{
    BatchModel, EyeImage, ImageFormat, ImuBatch, ImuPayload, ImuSample, Landmark, RectifiedStereo,
    StereoPair, VioPose, VioStatus,
};
use bincode::error::DecodeError;
use vstd::prelude::*;

verus! {

/// `bincode::error::DecodeError`: why bytes are not a value. Opaque here; any of its cases makes
/// the bytes malformed.
#[verifier::external_type_specification]
#[verifier::external_body]
pub struct ExDecodeError(bincode::error::DecodeError);

/// Why bytes are not a payload.
#[derive(Clone, Copy, Debug, PartialEq, Eq, Structural)]
pub enum WireError {
    /// They end too early, or an integer's length tag is none.
    Malformed,
    /// A boolean is neither 0 nor 1.
    InvalidBoolean(u8),
    /// The tag of an optional value is neither 0 nor 1.
    InvalidOption(u8),
    /// A batch holds more samples than it has room for.
    BatchTooLong {
        /// The room there is.
        required: usize,
        /// The samples announced.
        found: u64,
    },
}

/// What is read off the front of a byte sequence, with the bytes after it.
pub type Parsed<T> = Result<(T, Seq<u8>), WireError>;

/// The low `n` bytes of a number, least significant first.
pub open spec fn le_bytes(x: nat, n: nat) -> Seq<u8>
    decreases n,
{
    if n == 0 {
        Seq::empty()
    } else {
        seq![(x % 256) as u8] + le_bytes(x / 256, (n - 1) as nat)
    }
}

/// The number that bytes spell, least significant first.
pub open spec fn from_le(s: Seq<u8>) -> nat
    decreases s.len(),
{
    if s.len() == 0 {
        0
    } else {
        s[0] as nat + 256 * from_le(s.skip(1))
    }
}

/// The variable-length form of an integer: itself in one byte up to 250, and otherwise a tag and
/// the two, four or eight bytes it needs.
#[verifier::opaque]
pub open spec fn varint(x: u64) -> Seq<u8> {
    if x <= 250 {
        seq![x as u8]
    } else if x <= 0xffff {
        seq![251u8] + le_bytes(x as nat, 2)
    } else if x <= 0xffff_ffff {
        seq![252u8] + le_bytes(x as nat, 4)
    } else {
        seq![253u8] + le_bytes(x as nat, 8)
    }
}

/// Reads a variable-length integer of up to 64 bits. A longer form than needed is accepted.
#[verifier::opaque]
pub open spec fn parse_u64(b: Seq<u8>) -> Parsed<u64> {
    if b.len() >= 1 && b[0] <= 250 {
        Ok((b[0] as u64, b.skip(1)))
    } else if b.len() >= 3 && b[0] == 251 {
        Ok((from_le(b.subrange(1, 3)) as u64, b.skip(3)))
    } else if b.len() >= 5 && b[0] == 252 {
        Ok((from_le(b.subrange(1, 5)) as u64, b.skip(5)))
    } else if b.len() >= 9 && b[0] == 253 {
        Ok((from_le(b.subrange(1, 9)) as u64, b.skip(9)))
    } else {
        Err(WireError::Malformed)
    }
}

/// Reads a variable-length integer of up to 32 bits; the 64-bit form is not accepted.
#[verifier::opaque]
pub open spec fn parse_u32(b: Seq<u8>) -> Parsed<u32> {
    if b.len() >= 1 && b[0] <= 250 {
        Ok((b[0] as u32, b.skip(1)))
    } else if b.len() >= 3 && b[0] == 251 {
        Ok((from_le(b.subrange(1, 3)) as u32, b.skip(3)))
    } else if b.len() >= 5 && b[0] == 252 {
        Ok((from_le(b.subrange(1, 5)) as u32, b.skip(5)))
    } else {
        Err(WireError::Malformed)
    }
}

/// Reads a binary64 value.
#[verifier::opaque]
pub open spec fn parse_double(b: Seq<u8>) -> Parsed<Double> {
    if b.len() >= 8 {
        Ok((Double { bits: from_le(b.take(8)) as u64 }, b.skip(8)))
    } else {
        Err(WireError::Malformed)
    }
}

/// Reads a binary32 value.
#[verifier::opaque]
pub open spec fn parse_single(b: Seq<u8>) -> Parsed<Single> {
    if b.len() >= 4 {
        Ok((Single { bits: from_le(b.take(4)) as u32 }, b.skip(4)))
    } else {
        Err(WireError::Malformed)
    }
}

/// Reads a boolean.
#[verifier::opaque]
pub open spec fn parse_bool(b: Seq<u8>) -> Parsed<bool> {
    if b.len() == 0 {
        Err(WireError::Malformed)
    } else if b[0] <= 1 {
        Ok((b[0] == 1, b.skip(1)))
    } else {
        Err(WireError::InvalidBoolean(b[0]))
    }
}

/// Reads a length and that many bytes.
#[verifier::opaque]
pub open spec fn parse_bytes(b: Seq<u8>) -> Parsed<Seq<u8>> {
    match parse_u64(b) {
        Err(e) => Err(e),
        Ok((n, rest)) => if n <= rest.len() {
            Ok((rest.take(n as int), rest.skip(n as int)))
        } else {
            Err(WireError::Malformed)
        },
    }
}

/// A number has as many bytes as are asked for.
pub proof fn lemma_le_bytes_len(x: nat, n: nat)
    ensures
        le_bytes(x, n).len() == n,
    decreases n,
{
    if n > 0 {
        lemma_le_bytes_len(x / 256, (n - 1) as nat);
    }
}

/// The power of 256 a number of `n` bytes stays below.
pub open spec fn byte_range(n: nat) -> nat
    decreases n,
{
    if n == 0 {
        1
    } else {
        256 * byte_range((n - 1) as nat)
    }
}

proof fn lemma_le_round_trip(x: nat, n: nat)
    requires
        x < byte_range(n),
    ensures
        le_bytes(x, n).len() == n,
        from_le(le_bytes(x, n)) == x,
    decreases n,
{
    lemma_le_bytes_len(x, n);
    if n > 0 {
        assert(x / 256 < byte_range((n - 1) as nat)) by (nonlinear_arith)
            requires
                x < 256 * byte_range((n - 1) as nat),
        ;
        lemma_le_round_trip(x / 256, (n - 1) as nat);
        let s = le_bytes(x, n);
        assert(s.skip(1) =~= le_bytes(x / 256, (n - 1) as nat));
        assert(s[0] == (x % 256) as u8);
    }
}

proof fn lemma_from_le_bound(s: Seq<u8>)
    ensures
        from_le(s) < byte_range(s.len()),
    decreases s.len(),
{
    if s.len() > 0 {
        lemma_from_le_bound(s.skip(1));
    }
}

proof fn lemma_byte_ranges()
    ensures
        byte_range(2) == 0x1_0000,
        byte_range(4) == 0x1_0000_0000,
        byte_range(8) == 0x1_0000_0000_0000_0000,
{
    reveal_with_fuel(byte_range, 9);
}

proof fn lemma_u64_round_trip(x: u64, rest: Seq<u8>)
    ensures
        parse_u64(varint(x) + rest) == Ok::<(u64, Seq<u8>), WireError>((x, rest)),
        varint(x).len() <= 9,
{
    reveal(varint);
    reveal(parse_u64);
    lemma_byte_ranges();
    let b = varint(x) + rest;
    if x <= 250 {
        assert(b.skip(1) =~= rest);
    } else if x <= 0xffff {
        lemma_le_round_trip(x as nat, 2);
        assert(b.subrange(1, 3) =~= le_bytes(x as nat, 2));
        assert(b.skip(3) =~= rest);
    } else if x <= 0xffff_ffff {
        lemma_le_round_trip(x as nat, 4);
        assert(b.subrange(1, 5) =~= le_bytes(x as nat, 4));
        assert(b.skip(5) =~= rest);
    } else {
        lemma_le_round_trip(x as nat, 8);
        assert(b.subrange(1, 9) =~= le_bytes(x as nat, 8));
        assert(b.skip(9) =~= rest);
    }
}

proof fn lemma_u32_round_trip(x: u32, rest: Seq<u8>)
    ensures
        parse_u32(varint(x as u64) + rest) == Ok::<(u32, Seq<u8>), WireError>((x, rest)),
{
    reveal(varint);
    reveal(parse_u32);
    lemma_byte_ranges();
    let b = varint(x as u64) + rest;
    if x <= 250 {
        assert(b.skip(1) =~= rest);
    } else if x <= 0xffff {
        lemma_le_round_trip(x as nat, 2);
        assert(b.subrange(1, 3) =~= le_bytes(x as nat, 2));
        assert(b.skip(3) =~= rest);
    } else {
        lemma_le_round_trip(x as nat, 4);
        assert(b.subrange(1, 5) =~= le_bytes(x as nat, 4));
        assert(b.skip(5) =~= rest);
    }
}

proof fn lemma_double_round_trip(x: Double, rest: Seq<u8>)
    ensures
        parse_double(le_bytes(x.bits as nat, 8) + rest) == Ok::<(Double, Seq<u8>), WireError>(
            (x, rest),
        ),
{
    reveal(parse_double);
    lemma_byte_ranges();
    lemma_le_round_trip(x.bits as nat, 8);
    let b = le_bytes(x.bits as nat, 8) + rest;
    assert(b.take(8) =~= le_bytes(x.bits as nat, 8));
    assert(b.skip(8) =~= rest);
}

proof fn lemma_single_round_trip(x: Single, rest: Seq<u8>)
    ensures
        parse_single(le_bytes(x.bits as nat, 4) + rest) == Ok::<(Single, Seq<u8>), WireError>(
            (x, rest),
        ),
{
    reveal(parse_single);
    lemma_byte_ranges();
    lemma_le_round_trip(x.bits as nat, 4);
    let b = le_bytes(x.bits as nat, 4) + rest;
    assert(b.take(4) =~= le_bytes(x.bits as nat, 4));
    assert(b.skip(4) =~= rest);
}

/// `bincode::encode_to_vec` of an unsigned integer under the standard configuration.
#[verifier::external_body]
fn encode_varint(x: u64) -> (r: Vec<u8>)
    ensures
        r@ == varint(x),
{
    bincode::encode_to_vec(x, bincode::config::standard()).unwrap_or_default()
}

/// `bincode::decode_from_slice` of a 64-bit integer under the standard configuration, with the
/// number of bytes read.
#[verifier::external_body]
fn decode_varint_u64(bytes: &[u8]) -> (r: Result<(u64, usize), DecodeError>)
    ensures
        r is Ok == parse_u64(bytes@) is Ok,
        r is Ok ==> r->Ok_0.1 <= bytes@.len(),
        r is Ok ==> parse_u64(bytes@)->Ok_0 == (r->Ok_0.0, bytes@.skip(r->Ok_0.1 as int)),
{
    bincode::decode_from_slice(bytes, bincode::config::standard())
}

/// `bincode::decode_from_slice` of a 32-bit integer under the standard configuration, with the
/// number of bytes read.
#[verifier::external_body]
fn decode_varint_u32(bytes: &[u8]) -> (r: Result<(u32, usize), DecodeError>)
    ensures
        r is Ok == parse_u32(bytes@) is Ok,
        r is Ok ==> r->Ok_0.1 <= bytes@.len(),
        r is Ok ==> parse_u32(bytes@)->Ok_0 == (r->Ok_0.0, bytes@.skip(r->Ok_0.1 as int)),
{
    bincode::decode_from_slice(bytes, bincode::config::standard())
}

fn put_varint(out: &mut Vec<u8>, x: u64)
    ensures
        final(out)@ == old(out)@ + varint(x),
{
    let mut v: Vec<u8> = encode_varint(x);
    out.append(&mut v);
}

fn put_le(out: &mut Vec<u8>, x: u64, n: usize)
    requires
        n <= 8,
    ensures
        final(out)@ == old(out)@ + le_bytes(x as nat, n as nat),
{
    let ghost start = out@;
    let mut v: u64 = x;
    let mut i: usize = 0;
    assert(start + le_bytes(x as nat, n as nat) =~= out@ + le_bytes(v as nat, (n - i) as nat));
    while i < n
        invariant
            i <= n <= 8,
            start + le_bytes(x as nat, n as nat) == out@ + le_bytes(v as nat, (n - i) as nat),
        decreases n - i,
    {
        let ghost before = out@;
        let byte: u8 = (v % 256) as u8;
        out.push(byte);
        proof {
            assert(before + le_bytes(v as nat, (n - i) as nat) =~= out@ + le_bytes(
                v as nat / 256,
                (n - i - 1) as nat,
            ));
        }
        v = v / 256;
        i += 1;
    }
    assert(out@ + le_bytes(v as nat, 0) =~= out@);
}

fn put_double(out: &mut Vec<u8>, x: Double)
    ensures
        final(out)@ == old(out)@ + le_bytes(x.bits as nat, 8),
{
    put_le(out, x.bits, 8);
}

fn put_single(out: &mut Vec<u8>, x: Single)
    ensures
        final(out)@ == old(out)@ + le_bytes(x.bits as nat, 4),
{
    put_le(out, x.bits as u64, 4);
}

fn put_bool(out: &mut Vec<u8>, x: bool)
    ensures
        final(out)@ == old(out)@ + bool_wire(x),
{
    out.push(
        if x {
            1
        } else {
            0
        },
    );
    assert(out@ =~= old(out)@ + bool_wire(x));
}

/// The byte of a boolean.
pub open spec fn bool_wire(x: bool) -> Seq<u8> {
    if x {
        seq![1u8]
    } else {
        seq![0u8]
    }
}

fn get_u64(bytes: &[u8], pos: usize) -> (r: Result<(u64, usize), WireError>)
    requires
        pos <= bytes@.len(),
    ensures
        match r {
            Ok((v, next)) => next <= bytes@.len() && parse_u64(bytes@.skip(pos as int)) == Ok::<
                (u64, Seq<u8>),
                WireError,
            >((v, bytes@.skip(next as int))),
            Err(e) => parse_u64(bytes@.skip(pos as int)) == Err::<(u64, Seq<u8>), WireError>(e),
        },
{
    proof {
        reveal(parse_u64);
    }
    let tail = vstd::slice::slice_subrange(bytes, pos, bytes.len());
    assert(tail@ =~= bytes@.skip(pos as int));
    match decode_varint_u64(tail) {
        Ok((v, used)) => {
            assert(bytes@.skip(pos as int).skip(used as int) =~= bytes@.skip(pos + used));
            Ok((v, pos + used))
        },
        Err(_) => Err(WireError::Malformed),
    }
}

fn get_u32(bytes: &[u8], pos: usize) -> (r: Result<(u32, usize), WireError>)
    requires
        pos <= bytes@.len(),
    ensures
        match r {
            Ok((v, next)) => next <= bytes@.len() && parse_u32(bytes@.skip(pos as int)) == Ok::<
                (u32, Seq<u8>),
                WireError,
            >((v, bytes@.skip(next as int))),
            Err(e) => parse_u32(bytes@.skip(pos as int)) == Err::<(u32, Seq<u8>), WireError>(e),
        },
{
    proof {
        reveal(parse_u32);
    }
    let tail = vstd::slice::slice_subrange(bytes, pos, bytes.len());
    assert(tail@ =~= bytes@.skip(pos as int));
    match decode_varint_u32(tail) {
        Ok((v, used)) => {
            assert(bytes@.skip(pos as int).skip(used as int) =~= bytes@.skip(pos + used));
            Ok((v, pos + used))
        },
        Err(_) => Err(WireError::Malformed),
    }
}

/// Reads `n` little-endian bytes at a position.
fn get_le(bytes: &[u8], pos: usize, n: usize) -> (r: u64)
    requires
        n <= 8,
        pos + n <= bytes@.len(),
    ensures
        r == from_le(bytes@.subrange(pos as int, pos + n)),
{
    let mut v: u64 = 0;
    let mut i: usize = n;
    let ghost whole = bytes@.subrange(pos as int, pos + n);
    proof {
        assert(whole.skip(n as int).len() == 0);
    }
    while i > 0
        invariant
            i <= n <= 8,
            pos + n <= bytes@.len(),
            whole == bytes@.subrange(pos as int, pos + n),
            v == from_le(whole.skip(i as int)),
        decreases i,
    {
        i -= 1;
        proof {
            assert(bytes.len() <= usize::MAX);
            lemma_from_le_bound(whole.skip(i + 1));
            assert(whole.skip(i as int).skip(1) =~= whole.skip(i + 1));
            assert(byte_range((n - i - 1) as nat) <= 0x100_0000_0000_0000) by {
                reveal_with_fuel(byte_range, 8);
            }
        }
        v = bytes[pos + i] as u64 + 256 * v;
    }
    assert(whole.skip(0) =~= whole);
    v
}

fn get_double(bytes: &[u8], pos: usize) -> (r: Result<(Double, usize), WireError>)
    requires
        pos <= bytes@.len(),
    ensures
        match r {
            Ok((v, next)) => next <= bytes@.len() && parse_double(bytes@.skip(pos as int)) == Ok::<
                (Double, Seq<u8>),
                WireError,
            >((v, bytes@.skip(next as int))),
            Err(e) => parse_double(bytes@.skip(pos as int)) == Err::<(Double, Seq<u8>), WireError>(
                e,
            ),
        },
{
    proof {
        reveal(parse_double);
    }
    if bytes.len() - pos < 8 {
        return Err(WireError::Malformed);
    }
    let v: u64 = get_le(bytes, pos, 8);
    proof {
        let b = bytes@.skip(pos as int);
        assert(b.take(8) =~= bytes@.subrange(pos as int, pos + 8));
        assert(b.skip(8) =~= bytes@.skip(pos + 8));
    }
    Ok((Double { bits: v }, pos + 8))
}

fn get_single(bytes: &[u8], pos: usize) -> (r: Result<(Single, usize), WireError>)
    requires
        pos <= bytes@.len(),
    ensures
        match r {
            Ok((v, next)) => next <= bytes@.len() && parse_single(bytes@.skip(pos as int)) == Ok::<
                (Single, Seq<u8>),
                WireError,
            >((v, bytes@.skip(next as int))),
            Err(e) => parse_single(bytes@.skip(pos as int)) == Err::<(Single, Seq<u8>), WireError>(
                e,
            ),
        },
{
    proof {
        reveal(parse_single);
    }
    if bytes.len() - pos < 4 {
        return Err(WireError::Malformed);
    }
    let v: u64 = get_le(bytes, pos, 4);
    proof {
        let b = bytes@.skip(pos as int);
        assert(b.take(4) =~= bytes@.subrange(pos as int, pos + 4));
        assert(b.skip(4) =~= bytes@.skip(pos + 4));
        lemma_from_le_bound(b.take(4));
        lemma_byte_ranges();
    }
    Ok((Single { bits: v as u32 }, pos + 4))
}

fn get_bool(bytes: &[u8], pos: usize) -> (r: Result<(bool, usize), WireError>)
    requires
        pos <= bytes@.len(),
    ensures
        match r {
            Ok((v, next)) => next <= bytes@.len() && parse_bool(bytes@.skip(pos as int)) == Ok::<
                (bool, Seq<u8>),
                WireError,
            >((v, bytes@.skip(next as int))),
            Err(e) => parse_bool(bytes@.skip(pos as int)) == Err::<(bool, Seq<u8>), WireError>(e),
        },
{
    proof {
        reveal(parse_bool);
    }
    if pos == bytes.len() {
        return Err(WireError::Malformed);
    }
    let b: u8 = bytes[pos];
    assert(bytes@.skip(pos as int)[0] == b);
    assert(bytes@.skip(pos as int).skip(1) =~= bytes@.skip(pos + 1));
    if b <= 1 {
        Ok((b == 1, pos + 1))
    } else {
        Err(WireError::InvalidBoolean(b))
    }
}

fn get_bytes(bytes: &[u8], pos: usize) -> (r: Result<(Vec<u8>, usize), WireError>)
    requires
        pos <= bytes@.len(),
    ensures
        match r {
            Ok((v, next)) => next <= bytes@.len() && parse_bytes(bytes@.skip(pos as int)) == Ok::<
                (Seq<u8>, Seq<u8>),
                WireError,
            >((v@, bytes@.skip(next as int))),
            Err(e) => parse_bytes(bytes@.skip(pos as int)) == Err::<(Seq<u8>, Seq<u8>), WireError>(
                e,
            ),
        },
{
    proof {
        reveal(parse_bytes);
    }
    let (n, start) = match get_u64(bytes, pos) {
        Ok(x) => x,
        Err(e) => {
            return Err(e);
        },
    };
    if n > (bytes.len() - start) as u64 {
        return Err(WireError::Malformed);
    }
    let end: usize = start + n as usize;
    let mut v: Vec<u8> = Vec::new();
    v.extend_from_slice(vstd::slice::slice_subrange(bytes, start, end));
    proof {
        let rest = bytes@.skip(start as int);
        assert(v@ =~= rest.take(n as int));
        assert(rest.skip(n as int) =~= bytes@.skip(end as int));
    }
    Ok((v, end))
}

/// A payload's bytes, and what is read back from bytes, over its mathematical content.
#[verifier::ext_equal]
pub struct EyeModel {
    /// Frame counter.
    pub seq: u64,
    /// Format of the buffer.
    pub format: ImageFormat,
    /// The buffer.
    pub data: Seq<u8>,
}

impl EyeModel {
    /// Counter, width, height, stride, FourCC, and the buffer behind its length.
    pub open spec fn wire(self) -> Seq<u8> {
        varint(self.seq) + (varint(self.format.width as u64) + (varint(self.format.height as u64)
            + (varint(self.format.stride as u64) + (self.format.pixel_format@ + (varint(
            self.data.len() as u64,
        ) + self.data)))))
    }

    /// Reads an eye.
    pub open spec fn parse(b: Seq<u8>) -> Parsed<EyeModel> {
        match parse_u64(b) {
            Err(e) => Err(e),
            Ok((seq, b)) => match parse_u32(b) {
                Err(e) => Err(e),
                Ok((width, b)) => match parse_u32(b) {
                    Err(e) => Err(e),
                    Ok((height, b)) => match parse_u32(b) {
                        Err(e) => Err(e),
                        Ok((stride, b)) => if b.len() < 4 {
                            Err(WireError::Malformed)
                        } else {
                            let pixel_format = [b[0], b[1], b[2], b[3]];
                            match parse_bytes(b.skip(4)) {
                                Err(e) => Err(e),
                                Ok((data, b)) => Ok(
                                    (
                                        EyeModel {
                                            seq,
                                            format: ImageFormat {
                                                width,
                                                height,
                                                stride,
                                                pixel_format,
                                            },
                                            data,
                                        },
                                        b,
                                    ),
                                ),
                            }
                        },
                    },
                },
            },
        }
    }
}

impl View for EyeImage {
    type V = EyeModel;

    open spec fn view(&self) -> EyeModel {
        EyeModel { seq: self.seq, format: self.format, data: self.data@ }
    }
}

fn put_eye(out: &mut Vec<u8>, image: &EyeImage)
    ensures
        final(out)@ == old(out)@ + image@.wire(),
{
    put_varint(out, image.seq);
    put_varint(out, image.format.width as u64);
    put_varint(out, image.format.height as u64);
    put_varint(out, image.format.stride as u64);
    let p = image.format.pixel_format;
    let ghost before = out@;
    out.push(p[0]);
    out.push(p[1]);
    out.push(p[2]);
    out.push(p[3]);
    assert(out@ =~= before + p@);
    put_varint(out, image.data.len() as u64);
    let ghost before_data = out@;
    out.extend_from_slice(image.data.as_slice());
    assert(out@ =~= before_data + image.data@);
    assert(out@ =~= old(out)@ + image@.wire());
}

fn get_eye(bytes: &[u8], pos: usize) -> (r: Result<(EyeImage, usize), WireError>)
    requires
        pos <= bytes@.len(),
    ensures
        match r {
            Ok((v, next)) => next <= bytes@.len() && EyeModel::parse(bytes@.skip(pos as int))
                == Ok::<(EyeModel, Seq<u8>), WireError>((v@, bytes@.skip(next as int))),
            Err(e) => EyeModel::parse(bytes@.skip(pos as int)) == Err::<
                (EyeModel, Seq<u8>),
                WireError,
            >(e),
        },
{
    let (seq, p1) = match get_u64(bytes, pos) {
        Ok(x) => x,
        Err(e) => {
            return Err(e);
        },
    };
    let (width, p2) = match get_u32(bytes, p1) {
        Ok(x) => x,
        Err(e) => {
            return Err(e);
        },
    };
    let (height, p3) = match get_u32(bytes, p2) {
        Ok(x) => x,
        Err(e) => {
            return Err(e);
        },
    };
    let (stride, p4) = match get_u32(bytes, p3) {
        Ok(x) => x,
        Err(e) => {
            return Err(e);
        },
    };
    if bytes.len() - p4 < 4 {
        return Err(WireError::Malformed);
    }
    let pixel_format = [bytes[p4], bytes[p4 + 1], bytes[p4 + 2], bytes[p4 + 3]];
    assert(bytes@.skip(p4 as int).skip(4) =~= bytes@.skip(p4 + 4));
    let (data, p5) = match get_bytes(bytes, p4 + 4) {
        Ok(x) => x,
        Err(e) => {
            return Err(e);
        },
    };
    Ok((EyeImage { seq, format: ImageFormat { width, height, stride, pixel_format }, data }, p5))
}

proof fn lemma_array4(a: [u8; 4], b: [u8; 4])
    requires
        a@ == b@,
    ensures
        a == b,
{
    vstd::array::axiom_array_ext_equal(a, b);
}

proof fn lemma_eye_round_trip(x: EyeModel, rest: Seq<u8>)
    requires
        x.data.len() <= u64::MAX,
    ensures
        EyeModel::parse(x.wire() + rest) == Ok::<(EyeModel, Seq<u8>), WireError>((x, rest)),
{
    let n = x.data.len() as u64;
    let t6 = x.data + rest;
    let t5 = varint(n) + t6;
    let t4 = x.format.pixel_format@ + t5;
    let t3 = varint(x.format.stride as u64) + t4;
    let t2 = varint(x.format.height as u64) + t3;
    let t1 = varint(x.format.width as u64) + t2;
    let t0 = varint(x.seq) + t1;
    assert(x.wire() + rest =~= t0);
    lemma_u64_round_trip(x.seq, t1);
    lemma_u32_round_trip(x.format.width, t2);
    lemma_u32_round_trip(x.format.height, t3);
    lemma_u32_round_trip(x.format.stride, t4);
    assert(t4.skip(4) =~= t5);
    let read = [t4[0], t4[1], t4[2], t4[3]];
    assert(read@ =~= x.format.pixel_format@);
    lemma_array4(read, x.format.pixel_format);
    lemma_u64_round_trip(n, t6);
    reveal(parse_bytes);
    assert(t6.take(n as int) =~= x.data);
    assert(t6.skip(n as int) =~= rest);
}

impl RectifiedStereo {
    /// The five numbers, in order.
    pub open spec fn wire(self) -> Seq<u8> {
        le_bytes(self.fx.bits as nat, 8) + (le_bytes(self.fy.bits as nat, 8) + (le_bytes(
            self.cx.bits as nat,
            8,
        ) + (le_bytes(self.cy.bits as nat, 8) + le_bytes(self.baseline.bits as nat, 8))))
    }

    /// Reads a calibration.
    pub open spec fn parse(b: Seq<u8>) -> Parsed<RectifiedStereo> {
        match parse_double(b) {
            Err(e) => Err(e),
            Ok((fx, b)) => match parse_double(b) {
                Err(e) => Err(e),
                Ok((fy, b)) => match parse_double(b) {
                    Err(e) => Err(e),
                    Ok((cx, b)) => match parse_double(b) {
                        Err(e) => Err(e),
                        Ok((cy, b)) => match parse_double(b) {
                            Err(e) => Err(e),
                            Ok((baseline, b)) => Ok(
                                (RectifiedStereo { fx, fy, cx, cy, baseline }, b),
                            ),
                        },
                    },
                },
            },
        }
    }

    /// Encodes the calibration.
    pub fn encode(&self) -> (r: Vec<u8>)
        ensures
            r@ == self.wire(),
    {
        let mut out: Vec<u8> = Vec::new();
        put_calib(&mut out, self);
        assert(out@ =~= self.wire());
        out
    }

    /// Decodes a calibration off the front of bytes, with the number of bytes read.
    pub fn decode(bytes: &[u8]) -> (r: Result<(RectifiedStereo, usize), WireError>)
        ensures
            match r {
                Ok((v, used)) => used <= bytes@.len() && RectifiedStereo::parse(bytes@) == Ok::<
                    (RectifiedStereo, Seq<u8>),
                    WireError,
                >((v, bytes@.skip(used as int))),
                Err(e) => RectifiedStereo::parse(bytes@) == Err::<
                    (RectifiedStereo, Seq<u8>),
                    WireError,
                >(e),
            },
    {
        assert(bytes@.skip(0) =~= bytes@);
        get_calib(bytes, 0)
    }
}

fn put_calib(out: &mut Vec<u8>, calib: &RectifiedStereo)
    ensures
        final(out)@ == old(out)@ + calib.wire(),
{
    put_double(out, calib.fx);
    put_double(out, calib.fy);
    put_double(out, calib.cx);
    put_double(out, calib.cy);
    put_double(out, calib.baseline);
    assert(out@ =~= old(out)@ + calib.wire());
}

fn get_calib(bytes: &[u8], pos: usize) -> (r: Result<(RectifiedStereo, usize), WireError>)
    requires
        pos <= bytes@.len(),
    ensures
        match r {
            Ok((v, next)) => next <= bytes@.len() && RectifiedStereo::parse(bytes@.skip(pos as int))
                == Ok::<(RectifiedStereo, Seq<u8>), WireError>((v, bytes@.skip(next as int))),
            Err(e) => RectifiedStereo::parse(bytes@.skip(pos as int)) == Err::<
                (RectifiedStereo, Seq<u8>),
                WireError,
            >(e),
        },
{
    let (fx, p1) = match get_double(bytes, pos) {
        Ok(x) => x,
        Err(e) => {
            return Err(e);
        },
    };
    let (fy, p2) = match get_double(bytes, p1) {
        Ok(x) => x,
        Err(e) => {
            return Err(e);
        },
    };
    let (cx, p3) = match get_double(bytes, p2) {
        Ok(x) => x,
        Err(e) => {
            return Err(e);
        },
    };
    let (cy, p4) = match get_double(bytes, p3) {
        Ok(x) => x,
        Err(e) => {
            return Err(e);
        },
    };
    let (baseline, p5) = match get_double(bytes, p4) {
        Ok(x) => x,
        Err(e) => {
            return Err(e);
        },
    };
    Ok((RectifiedStereo { fx, fy, cx, cy, baseline }, p5))
}

/// Decoding a calibration undoes encoding it, whatever follows.
pub proof fn calibration_round_trips(x: RectifiedStereo, rest: Seq<u8>)
    ensures
        RectifiedStereo::parse(x.wire() + rest) == Ok::<(RectifiedStereo, Seq<u8>), WireError>(
            (x, rest),
        ),
{
    let t4 = le_bytes(x.baseline.bits as nat, 8) + rest;
    let t3 = le_bytes(x.cy.bits as nat, 8) + t4;
    let t2 = le_bytes(x.cx.bits as nat, 8) + t3;
    let t1 = le_bytes(x.fy.bits as nat, 8) + t2;
    let t0 = le_bytes(x.fx.bits as nat, 8) + t1;
    assert(x.wire() + rest =~= t0);
    lemma_double_round_trip(x.fx, t1);
    lemma_double_round_trip(x.fy, t2);
    lemma_double_round_trip(x.cx, t3);
    lemma_double_round_trip(x.cy, t4);
    lemma_double_round_trip(x.baseline, rest);
}

/// The mathematical content of a [`StereoPair`].
#[verifier::ext_equal]
pub struct PairModel {
    /// Left eye.
    pub left: EyeModel,
    /// Right eye.
    pub right: EyeModel,
    /// Geometry.
    pub calib: RectifiedStereo,
    /// Frames the source discarded.
    pub dropped: u64,
}

impl PairModel {
    /// Left eye, right eye, calibration, drop count.
    pub open spec fn wire(self) -> Seq<u8> {
        self.left.wire() + (self.right.wire() + (self.calib.wire() + varint(self.dropped)))
    }

    /// Reads a pair.
    pub open spec fn parse(b: Seq<u8>) -> Parsed<PairModel> {
        match EyeModel::parse(b) {
            Err(e) => Err(e),
            Ok((left, b)) => match EyeModel::parse(b) {
                Err(e) => Err(e),
                Ok((right, b)) => match RectifiedStereo::parse(b) {
                    Err(e) => Err(e),
                    Ok((calib, b)) => match parse_u64(b) {
                        Err(e) => Err(e),
                        Ok((dropped, b)) => Ok((PairModel { left, right, calib, dropped }, b)),
                    },
                },
            },
        }
    }
}

impl View for StereoPair {
    type V = PairModel;

    open spec fn view(&self) -> PairModel {
        PairModel {
            left: self.left@,
            right: self.right@,
            calib: self.calib,
            dropped: self.dropped,
        }
    }
}

impl StereoPair {
    /// Encodes the pair.
    pub fn encode(&self) -> (r: Vec<u8>)
        ensures
            r@ == self@.wire(),
    {
        let mut out: Vec<u8> = Vec::new();
        put_eye(&mut out, &self.left);
        put_eye(&mut out, &self.right);
        put_calib(&mut out, &self.calib);
        put_varint(&mut out, self.dropped);
        assert(out@ =~= self@.wire());
        out
    }

    /// Decodes a pair off the front of bytes, with the number of bytes read. The pair still has to
    /// be validated.
    pub fn decode(bytes: &[u8]) -> (r: Result<(StereoPair, usize), WireError>)
        ensures
            match r {
                Ok((v, used)) => used <= bytes@.len() && PairModel::parse(bytes@) == Ok::<
                    (PairModel, Seq<u8>),
                    WireError,
                >((v@, bytes@.skip(used as int))),
                Err(e) => PairModel::parse(bytes@) == Err::<(PairModel, Seq<u8>), WireError>(e),
            },
    {
        assert(bytes@.skip(0) =~= bytes@);
        let (left, p1) = match get_eye(bytes, 0) {
            Ok(x) => x,
            Err(e) => {
                return Err(e);
            },
        };
        let (right, p2) = match get_eye(bytes, p1) {
            Ok(x) => x,
            Err(e) => {
                return Err(e);
            },
        };
        let (calib, p3) = match get_calib(bytes, p2) {
            Ok(x) => x,
            Err(e) => {
                return Err(e);
            },
        };
        let (dropped, p4) = match get_u64(bytes, p3) {
            Ok(x) => x,
            Err(e) => {
                return Err(e);
            },
        };
        Ok((StereoPair { left, right, calib, dropped }, p4))
    }
}

/// Decoding a stereo pair undoes encoding it, whatever follows.
pub proof fn stereo_pair_round_trips(x: PairModel, rest: Seq<u8>)
    requires
        x.left.data.len() <= u64::MAX,
        x.right.data.len() <= u64::MAX,
    ensures
        PairModel::parse(x.wire() + rest) == Ok::<(PairModel, Seq<u8>), WireError>((x, rest)),
{
    let t3 = varint(x.dropped) + rest;
    let t2 = x.calib.wire() + t3;
    let t1 = x.right.wire() + t2;
    assert(x.wire() + rest =~= x.left.wire() + t1);
    lemma_eye_round_trip(x.left, t1);
    lemma_eye_round_trip(x.right, t2);
    calibration_round_trips(x.calib, t3);
    lemma_u64_round_trip(x.dropped, rest);
}

impl ImuSample {
    /// Time, acceleration, angular velocity, temperature.
    pub open spec fn wire(self) -> Seq<u8> {
        varint(self.tov) + (le_bytes(self.imu.accel_x.bits as nat, 4) + (le_bytes(
            self.imu.accel_y.bits as nat,
            4,
        ) + (le_bytes(self.imu.accel_z.bits as nat, 4) + (le_bytes(self.imu.gyro_x.bits as nat, 4)
            + (le_bytes(self.imu.gyro_y.bits as nat, 4) + (le_bytes(
            self.imu.gyro_z.bits as nat,
            4,
        ) + le_bytes(self.imu.temperature.bits as nat, 4)))))))
    }

    /// Reads a sample.
    pub open spec fn parse(b: Seq<u8>) -> Parsed<ImuSample> {
        match parse_u64(b) {
            Err(e) => Err(e),
            Ok((tov, b)) => match parse_single(b) {
                Err(e) => Err(e),
                Ok((accel_x, b)) => match parse_single(b) {
                    Err(e) => Err(e),
                    Ok((accel_y, b)) => match parse_single(b) {
                        Err(e) => Err(e),
                        Ok((accel_z, b)) => match parse_single(b) {
                            Err(e) => Err(e),
                            Ok((gyro_x, b)) => match parse_single(b) {
                                Err(e) => Err(e),
                                Ok((gyro_y, b)) => match parse_single(b) {
                                    Err(e) => Err(e),
                                    Ok((gyro_z, b)) => match parse_single(b) {
                                        Err(e) => Err(e),
                                        Ok((temperature, b)) => Ok(
                                            (
                                                ImuSample {
                                                    tov,
                                                    imu: ImuPayload {
                                                        accel_x,
                                                        accel_y,
                                                        accel_z,
                                                        gyro_x,
                                                        gyro_y,
                                                        gyro_z,
                                                        temperature,
                                                    },
                                                },
                                                b,
                                            ),
                                        ),
                                    },
                                },
                            },
                        },
                    },
                },
            },
        }
    }
}

fn put_sample(out: &mut Vec<u8>, s: &ImuSample)
    ensures
        final(out)@ == old(out)@ + s.wire(),
{
    put_varint(out, s.tov);
    put_single(out, s.imu.accel_x);
    put_single(out, s.imu.accel_y);
    put_single(out, s.imu.accel_z);
    put_single(out, s.imu.gyro_x);
    put_single(out, s.imu.gyro_y);
    put_single(out, s.imu.gyro_z);
    put_single(out, s.imu.temperature);
    assert(out@ =~= old(out)@ + s.wire());
}

fn get_sample(bytes: &[u8], pos: usize) -> (r: Result<(ImuSample, usize), WireError>)
    requires
        pos <= bytes@.len(),
    ensures
        match r {
            Ok((v, next)) => next <= bytes@.len() && ImuSample::parse(bytes@.skip(pos as int))
                == Ok::<(ImuSample, Seq<u8>), WireError>((v, bytes@.skip(next as int))),
            Err(e) => ImuSample::parse(bytes@.skip(pos as int)) == Err::<
                (ImuSample, Seq<u8>),
                WireError,
            >(e),
        },
{
    let (tov, p0) = match get_u64(bytes, pos) {
        Ok(x) => x,
        Err(e) => {
            return Err(e);
        },
    };
    let (accel_x, p1) = match get_single(bytes, p0) {
        Ok(x) => x,
        Err(e) => {
            return Err(e);
        },
    };
    let (accel_y, p2) = match get_single(bytes, p1) {
        Ok(x) => x,
        Err(e) => {
            return Err(e);
        },
    };
    let (accel_z, p3) = match get_single(bytes, p2) {
        Ok(x) => x,
        Err(e) => {
            return Err(e);
        },
    };
    let (gyro_x, p4) = match get_single(bytes, p3) {
        Ok(x) => x,
        Err(e) => {
            return Err(e);
        },
    };
    let (gyro_y, p5) = match get_single(bytes, p4) {
        Ok(x) => x,
        Err(e) => {
            return Err(e);
        },
    };
    let (gyro_z, p6) = match get_single(bytes, p5) {
        Ok(x) => x,
        Err(e) => {
            return Err(e);
        },
    };
    let (temperature, p7) = match get_single(bytes, p6) {
        Ok(x) => x,
        Err(e) => {
            return Err(e);
        },
    };
    Ok(
        (
            ImuSample {
                tov,
                imu: ImuPayload { accel_x, accel_y, accel_z, gyro_x, gyro_y, gyro_z, temperature },
            },
            p7,
        ),
    )
}

proof fn lemma_sample_round_trip(x: ImuSample, rest: Seq<u8>)
    ensures
        ImuSample::parse(x.wire() + rest) == Ok::<(ImuSample, Seq<u8>), WireError>((x, rest)),
{
    let t7 = le_bytes(x.imu.temperature.bits as nat, 4) + rest;
    let t6 = le_bytes(x.imu.gyro_z.bits as nat, 4) + t7;
    let t5 = le_bytes(x.imu.gyro_y.bits as nat, 4) + t6;
    let t4 = le_bytes(x.imu.gyro_x.bits as nat, 4) + t5;
    let t3 = le_bytes(x.imu.accel_z.bits as nat, 4) + t4;
    let t2 = le_bytes(x.imu.accel_y.bits as nat, 4) + t3;
    let t1 = le_bytes(x.imu.accel_x.bits as nat, 4) + t2;
    assert(x.wire() + rest =~= varint(x.tov) + t1);
    lemma_u64_round_trip(x.tov, t1);
    lemma_single_round_trip(x.imu.accel_x, t2);
    lemma_single_round_trip(x.imu.accel_y, t3);
    lemma_single_round_trip(x.imu.accel_z, t4);
    lemma_single_round_trip(x.imu.gyro_x, t5);
    lemma_single_round_trip(x.imu.gyro_y, t6);
    lemma_single_round_trip(x.imu.gyro_z, t7);
    lemma_single_round_trip(x.imu.temperature, rest);
}

/// The samples one after another.
pub open spec fn samples_wire(s: Seq<ImuSample>) -> Seq<u8>
    decreases s.len(),
{
    if s.len() == 0 {
        Seq::empty()
    } else {
        s[0].wire() + samples_wire(s.skip(1))
    }
}

/// Reads `n` samples.
pub open spec fn parse_samples(b: Seq<u8>, n: nat) -> Parsed<Seq<ImuSample>>
    decreases n,
{
    if n == 0 {
        Ok((Seq::empty(), b))
    } else {
        match ImuSample::parse(b) {
            Err(e) => Err(e),
            Ok((s, b)) => match parse_samples(b, (n - 1) as nat) {
                Err(e) => Err(e),
                Ok((rest, b)) => Ok((seq![s] + rest, b)),
            },
        }
    }
}

proof fn lemma_samples_round_trip(s: Seq<ImuSample>, rest: Seq<u8>)
    ensures
        parse_samples(samples_wire(s) + rest, s.len()) == Ok::<
            (Seq<ImuSample>, Seq<u8>),
            WireError,
        >((s, rest)),
    decreases s.len(),
{
    if s.len() == 0 {
        assert(samples_wire(s) + rest =~= rest);
        assert(s =~= Seq::empty());
    } else {
        let t = samples_wire(s.skip(1)) + rest;
        assert(samples_wire(s) + rest =~= s[0].wire() + t);
        lemma_sample_round_trip(s[0], t);
        lemma_samples_round_trip(s.skip(1), rest);
        assert(seq![s[0]] + s.skip(1) =~= s);
    }
}

impl BatchModel {
    /// The number of samples, the samples, the drop count, the alignment.
    pub open spec fn wire(self) -> Seq<u8> {
        varint(self.samples.len() as u64) + (samples_wire(self.samples) + (varint(self.dropped)
            + bool_wire(self.camera_aligned)))
    }

    /// Reads a batch with room for `capacity` samples.
    pub open spec fn parse(b: Seq<u8>, capacity: usize) -> Parsed<BatchModel> {
        match parse_u64(b) {
            Err(e) => Err(e),
            Ok((n, b)) => if n > capacity {
                Err(WireError::BatchTooLong { required: capacity, found: n })
            } else {
                match parse_samples(b, n as nat) {
                    Err(e) => Err(e),
                    Ok((samples, b)) => match parse_u64(b) {
                        Err(e) => Err(e),
                        Ok((dropped, b)) => match parse_bool(b) {
                            Err(e) => Err(e),
                            Ok((camera_aligned, b)) => Ok(
                                (BatchModel { samples, dropped, camera_aligned }, b),
                            ),
                        },
                    },
                }
            },
        }
    }
}

impl<const N: usize> ImuBatch<N> {
    /// Encodes the batch.
    pub fn encode(&self) -> (r: Vec<u8>)
        ensures
            r@ == self@.wire(),
    {
        let mut out: Vec<u8> = Vec::new();
        put_varint(&mut out, self.samples.len() as u64);
        let ghost head = out@;
        let ghost all = self.samples@;
        let mut i: usize = 0;
        proof {
            assert(all.skip(0) =~= all);
        }
        while i < self.samples.len()
            invariant
                all == self.samples@,
                i <= all.len(),
                head + samples_wire(all) == out@ + samples_wire(all.skip(i as int)),
            decreases all.len() - i,
        {
            let ghost before = out@;
            put_sample(&mut out, &self.samples[i]);
            proof {
                assert(all.skip(i as int).skip(1) =~= all.skip(i + 1));
                assert(before + samples_wire(all.skip(i as int)) =~= out@ + samples_wire(
                    all.skip(i + 1),
                ));
            }
            i += 1;
        }
        assert(out@ + samples_wire(all.skip(i as int)) =~= out@);
        put_varint(&mut out, self.dropped);
        put_bool(&mut out, self.camera_aligned);
        assert(head =~= varint(self.samples@.len() as u64));
        assert(out@ =~= self@.wire());
        out
    }

    /// Decodes a batch off the front of bytes, with the number of bytes read. One that announces
    /// more samples than fit is refused.
    pub fn decode(bytes: &[u8]) -> (r: Result<(ImuBatch<N>, usize), WireError>)
        ensures
            match r {
                Ok((v, used)) => used <= bytes@.len() && v.wf() && BatchModel::parse(bytes@, N)
                    == Ok::<(BatchModel, Seq<u8>), WireError>(
                    (v@, bytes@.skip(used as int)),
                ),
                Err(e) => BatchModel::parse(bytes@, N) == Err::<(BatchModel, Seq<u8>), WireError>(
                    e,
                ),
            },
    {
        assert(bytes@.skip(0) =~= bytes@);
        let (n, p1) = match get_u64(bytes, 0) {
            Ok(x) => x,
            Err(e) => {
                return Err(e);
            },
        };
        if n > N as u64 {
            return Err(WireError::BatchTooLong { required: N, found: n });
        }
        let mut samples: Vec<ImuSample> = Vec::new();
        let mut pos: usize = p1;
        let mut i: u64 = 0;
        let ghost whole = parse_samples(bytes@.skip(p1 as int), n as nat);
        proof {
            match whole {
                Ok((rest, b)) => {
                    assert(samples@ + rest =~= rest);
                },
                Err(_) => {},
            }
        }
        while i < n
            invariant
                i <= n <= N,
                pos <= bytes@.len(),
                samples@.len() == i,
                whole == match parse_samples(bytes@.skip(pos as int), (n - i) as nat) {
                    Ok((rest, b)) => Ok::<(Seq<ImuSample>, Seq<u8>), WireError>((samples@ + rest, b)),
                    Err(e) => Err(e),
                },
                BatchModel::parse(bytes@, N) == match whole {
                    Err(e) => Err(e),
                    Ok((samples, b)) => match parse_u64(b) {
                        Err(e) => Err(e),
                        Ok((dropped, b)) => match parse_bool(b) {
                            Err(e) => Err(e),
                            Ok((camera_aligned, b)) => Ok::<(BatchModel, Seq<u8>), WireError>(
                                (BatchModel { samples, dropped, camera_aligned }, b),
                            ),
                        },
                    },
                },
            decreases n - i,
        {
            let ghost before = samples@;
            let ghost here = bytes@.skip(pos as int);
            let (s, next) = match get_sample(bytes, pos) {
                Ok(x) => x,
                Err(e) => {
                    return Err(e);
                },
            };
            samples.push(s);
            pos = next;
            proof {
                match parse_samples(bytes@.skip(pos as int), (n - i - 1) as nat) {
                    Ok((rest, b)) => {
                        assert(before + (seq![s] + rest) =~= samples@ + rest);
                    },
                    Err(_) => {},
                }
            }
            i += 1;
        }
        proof {
            assert(samples@ + Seq::<ImuSample>::empty() =~= samples@);
        }
        let (dropped, p2) = match get_u64(bytes, pos) {
            Ok(x) => x,
            Err(e) => {
                return Err(e);
            },
        };
        let (camera_aligned, p3) = match get_bool(bytes, p2) {
            Ok(x) => x,
            Err(e) => {
                return Err(e);
            },
        };
        Ok((ImuBatch { samples, dropped, camera_aligned }, p3))
    }
}

/// Decoding a batch undoes encoding it, whatever follows, wherever its samples fit.
pub proof fn imu_batch_round_trips(x: BatchModel, capacity: usize, rest: Seq<u8>)
    requires
        x.samples.len() <= capacity,
    ensures
        BatchModel::parse(x.wire() + rest, capacity) == Ok::<(BatchModel, Seq<u8>), WireError>(
            (x, rest),
        ),
{
    let t3 = bool_wire(x.camera_aligned) + rest;
    let t2 = varint(x.dropped) + t3;
    let t1 = samples_wire(x.samples) + t2;
    assert(x.wire() + rest =~= varint(x.samples.len() as u64) + t1);
    lemma_u64_round_trip(x.samples.len() as u64, t1);
    lemma_samples_round_trip(x.samples, t2);
    lemma_u64_round_trip(x.dropped, t3);
    reveal(parse_bool);
    assert(t3.skip(1) =~= rest);
}

/// A batch too long for the reader is refused, whatever its samples are.
pub proof fn an_overlong_batch_is_refused(x: BatchModel, capacity: usize, rest: Seq<u8>)
    requires
        capacity < x.samples.len() <= u64::MAX,
    ensures
        BatchModel::parse(x.wire() + rest, capacity) == Err::<(BatchModel, Seq<u8>), WireError>(
            WireError::BatchTooLong { required: capacity, found: x.samples.len() as u64 },
        ),
{
    let t1 = samples_wire(x.samples) + (varint(x.dropped) + (bool_wire(x.camera_aligned) + rest));
    assert(x.wire() + rest =~= varint(x.samples.len() as u64) + t1);
    lemma_u64_round_trip(x.samples.len() as u64, t1);
}

impl VioStatus {
    /// Keyframe flag, epoch, landmark count.
    pub open spec fn wire(self) -> Seq<u8> {
        bool_wire(self.keyframe) + (varint(self.reset_epoch) + varint(self.landmarks as u64))
    }

    /// Reads a status.
    pub open spec fn parse(b: Seq<u8>) -> Parsed<VioStatus> {
        match parse_bool(b) {
            Err(e) => Err(e),
            Ok((keyframe, b)) => match parse_u64(b) {
                Err(e) => Err(e),
                Ok((reset_epoch, b)) => match parse_u32(b) {
                    Err(e) => Err(e),
                    Ok((landmarks, b)) => Ok((VioStatus { keyframe, reset_epoch, landmarks }, b)),
                },
            },
        }
    }
}

fn put_status(out: &mut Vec<u8>, s: &VioStatus)
    ensures
        final(out)@ == old(out)@ + s.wire(),
{
    put_bool(out, s.keyframe);
    put_varint(out, s.reset_epoch);
    put_varint(out, s.landmarks as u64);
    assert(out@ =~= old(out)@ + s.wire());
}

fn get_status(bytes: &[u8], pos: usize) -> (r: Result<(VioStatus, usize), WireError>)
    requires
        pos <= bytes@.len(),
    ensures
        match r {
            Ok((v, next)) => next <= bytes@.len() && VioStatus::parse(bytes@.skip(pos as int))
                == Ok::<(VioStatus, Seq<u8>), WireError>((v, bytes@.skip(next as int))),
            Err(e) => VioStatus::parse(bytes@.skip(pos as int)) == Err::<
                (VioStatus, Seq<u8>),
                WireError,
            >(e),
        },
{
    let (keyframe, p1) = match get_bool(bytes, pos) {
        Ok(x) => x,
        Err(e) => {
            return Err(e);
        },
    };
    let (reset_epoch, p2) = match get_u64(bytes, p1) {
        Ok(x) => x,
        Err(e) => {
            return Err(e);
        },
    };
    let (landmarks, p3) = match get_u32(bytes, p2) {
        Ok(x) => x,
        Err(e) => {
            return Err(e);
        },
    };
    Ok((VioStatus { keyframe, reset_epoch, landmarks }, p3))
}

proof fn lemma_status_round_trip(x: VioStatus, rest: Seq<u8>)
    ensures
        VioStatus::parse(x.wire() + rest) == Ok::<(VioStatus, Seq<u8>), WireError>((x, rest)),
{
    let t2 = varint(x.landmarks as u64) + rest;
    let t1 = varint(x.reset_epoch) + t2;
    let t0 = bool_wire(x.keyframe) + t1;
    assert(x.wire() + rest =~= t0);
    reveal(parse_bool);
    assert(t0.skip(1) =~= t1);
    lemma_u64_round_trip(x.reset_epoch, t2);
    lemma_u32_round_trip(x.landmarks, rest);
}

impl Landmark {
    /// Position, index.
    pub open spec fn wire(self) -> Seq<u8> {
        le_bytes(self.x.bits as nat, 4) + (le_bytes(self.y.bits as nat, 4) + (le_bytes(
            self.z.bits as nat,
            4,
        ) + varint(self.index as u64)))
    }

    /// Reads a landmark.
    pub open spec fn parse(b: Seq<u8>) -> Parsed<Landmark> {
        match parse_single(b) {
            Err(e) => Err(e),
            Ok((x, b)) => match parse_single(b) {
                Err(e) => Err(e),
                Ok((y, b)) => match parse_single(b) {
                    Err(e) => Err(e),
                    Ok((z, b)) => match parse_u32(b) {
                        Err(e) => Err(e),
                        Ok((index, b)) => Ok((Landmark { x, y, z, index }, b)),
                    },
                },
            },
        }
    }

    /// Encodes the landmark.
    pub fn encode(&self) -> (r: Vec<u8>)
        ensures
            r@ == self.wire(),
    {
        let mut out: Vec<u8> = Vec::new();
        put_landmark(&mut out, self);
        assert(out@ =~= self.wire());
        out
    }

    /// Decodes a landmark off the front of bytes, with the number of bytes read.
    pub fn decode(bytes: &[u8]) -> (r: Result<(Landmark, usize), WireError>)
        ensures
            match r {
                Ok((v, used)) => used <= bytes@.len() && Landmark::parse(bytes@) == Ok::<
                    (Landmark, Seq<u8>),
                    WireError,
                >((v, bytes@.skip(used as int))),
                Err(e) => Landmark::parse(bytes@) == Err::<(Landmark, Seq<u8>), WireError>(e),
            },
    {
        assert(bytes@.skip(0) =~= bytes@);
        get_landmark(bytes, 0)
    }
}

fn put_landmark(out: &mut Vec<u8>, p: &Landmark)
    ensures
        final(out)@ == old(out)@ + p.wire(),
{
    put_single(out, p.x);
    put_single(out, p.y);
    put_single(out, p.z);
    put_varint(out, p.index as u64);
    assert(out@ =~= old(out)@ + p.wire());
}

fn get_landmark(bytes: &[u8], pos: usize) -> (r: Result<(Landmark, usize), WireError>)
    requires
        pos <= bytes@.len(),
    ensures
        match r {
            Ok((v, next)) => next <= bytes@.len() && Landmark::parse(bytes@.skip(pos as int))
                == Ok::<(Landmark, Seq<u8>), WireError>((v, bytes@.skip(next as int))),
            Err(e) => Landmark::parse(bytes@.skip(pos as int)) == Err::<
                (Landmark, Seq<u8>),
                WireError,
            >(e),
        },
{
    let (x, p1) = match get_single(bytes, pos) {
        Ok(x) => x,
        Err(e) => {
            return Err(e);
        },
    };
    let (y, p2) = match get_single(bytes, p1) {
        Ok(x) => x,
        Err(e) => {
            return Err(e);
        },
    };
    let (z, p3) = match get_single(bytes, p2) {
        Ok(x) => x,
        Err(e) => {
            return Err(e);
        },
    };
    let (index, p4) = match get_u32(bytes, p3) {
        Ok(x) => x,
        Err(e) => {
            return Err(e);
        },
    };
    Ok((Landmark { x, y, z, index }, p4))
}

/// Decoding a landmark undoes encoding it, whatever follows; the index is exact at every width.
pub proof fn landmark_round_trips(x: Landmark, rest: Seq<u8>)
    ensures
        Landmark::parse(x.wire() + rest) == Ok::<(Landmark, Seq<u8>), WireError>((x, rest)),
{
    let t3 = varint(x.index as u64) + rest;
    let t2 = le_bytes(x.z.bits as nat, 4) + t3;
    let t1 = le_bytes(x.y.bits as nat, 4) + t2;
    assert(x.wire() + rest =~= le_bytes(x.x.bits as nat, 4) + t1);
    lemma_single_round_trip(x.x, t1);
    lemma_single_round_trip(x.y, t2);
    lemma_single_round_trip(x.z, t3);
    lemma_u32_round_trip(x.index, rest);
}

/// Landmarks one after another.
pub open spec fn landmarks_wire(s: Seq<Landmark>) -> Seq<u8>
    decreases s.len(),
{
    if s.len() == 0 {
        Seq::empty()
    } else {
        s[0].wire() + landmarks_wire(s.skip(1))
    }
}

/// Reads `n` landmarks.
pub open spec fn parse_landmarks(b: Seq<u8>, n: nat) -> Parsed<Seq<Landmark>>
    decreases n,
{
    if n == 0 {
        Ok((Seq::empty(), b))
    } else {
        match Landmark::parse(b) {
            Err(e) => Err(e),
            Ok((p, b)) => match parse_landmarks(b, (n - 1) as nat) {
                Err(e) => Err(e),
                Ok((rest, b)) => Ok((seq![p] + rest, b)),
            },
        }
    }
}

proof fn lemma_landmarks_round_trip(s: Seq<Landmark>, rest: Seq<u8>)
    ensures
        parse_landmarks(landmarks_wire(s) + rest, s.len()) == Ok::<
            (Seq<Landmark>, Seq<u8>),
            WireError,
        >((s, rest)),
    decreases s.len(),
{
    if s.len() == 0 {
        assert(landmarks_wire(s) + rest =~= rest);
        assert(s =~= Seq::empty());
    } else {
        let t = landmarks_wire(s.skip(1)) + rest;
        assert(landmarks_wire(s) + rest =~= s[0].wire() + t);
        landmark_round_trips(s[0], t);
        lemma_landmarks_round_trip(s.skip(1), rest);
        assert(seq![s[0]] + s.skip(1) =~= s);
    }
}

/// Binary64 values one after another.
pub open spec fn doubles_wire(s: Seq<Double>) -> Seq<u8>
    decreases s.len(),
{
    if s.len() == 0 {
        Seq::empty()
    } else {
        le_bytes(s[0].bits as nat, 8) + doubles_wire(s.skip(1))
    }
}

/// Reads `n` binary64 values.
pub open spec fn parse_doubles(b: Seq<u8>, n: nat) -> Parsed<Seq<Double>>
    decreases n,
{
    if n == 0 {
        Ok((Seq::empty(), b))
    } else {
        match parse_double(b) {
            Err(e) => Err(e),
            Ok((x, b)) => match parse_doubles(b, (n - 1) as nat) {
                Err(e) => Err(e),
                Ok((rest, b)) => Ok((seq![x] + rest, b)),
            },
        }
    }
}

proof fn lemma_doubles_round_trip(s: Seq<Double>, rest: Seq<u8>)
    ensures
        parse_doubles(doubles_wire(s) + rest, s.len()) == Ok::<(Seq<Double>, Seq<u8>), WireError>(
            (s, rest),
        ),
    decreases s.len(),
{
    if s.len() == 0 {
        assert(doubles_wire(s) + rest =~= rest);
        assert(s =~= Seq::empty());
    } else {
        let t = doubles_wire(s.skip(1)) + rest;
        assert(doubles_wire(s) + rest =~= le_bytes(s[0].bits as nat, 8) + t);
        lemma_double_round_trip(s[0], t);
        lemma_doubles_round_trip(s.skip(1), rest);
        assert(seq![s[0]] + s.skip(1) =~= s);
    }
}

/// The mathematical content of a [`VioPose`].
#[verifier::ext_equal]
pub struct PoseModel {
    /// Where the camera is.
    pub cam_in_world: RigidPose,
    /// Bookkeeping.
    pub status: VioStatus,
    /// Snapshot.
    pub map_points: Option<Seq<Landmark>>,
}

impl PoseModel {
    /// The snapshot: a tag, and the points behind their number.
    pub open spec fn snapshot_wire(self) -> Seq<u8> {
        match self.map_points {
            None => seq![0u8],
            Some(points) => seq![1u8] + (varint(points.len() as u64) + landmarks_wire(points)),
        }
    }

    /// Matrix, status, snapshot.
    pub open spec fn wire(self) -> Seq<u8> {
        doubles_wire(self.cam_in_world.entries()) + (self.status.wire() + self.snapshot_wire())
    }

    /// Reads a snapshot.
    pub open spec fn parse_snapshot(b: Seq<u8>) -> Parsed<Option<Seq<Landmark>>> {
        if b.len() == 0 {
            Err(WireError::Malformed)
        } else if b[0] == 0 {
            Ok((None, b.skip(1)))
        } else if b[0] == 1 {
            match parse_u64(b.skip(1)) {
                Err(e) => Err(e),
                Ok((n, b)) => match parse_landmarks(b, n as nat) {
                    Err(e) => Err(e),
                    Ok((points, b)) => Ok((Some(points), b)),
                },
            }
        } else {
            Err(WireError::InvalidOption(b[0]))
        }
    }

    /// Reads a pose. The last row of the matrix is read and not looked at.
    pub open spec fn parse(b: Seq<u8>) -> Parsed<PoseModel> {
        match parse_doubles(b, 16) {
            Err(e) => Err(e),
            Ok((entries, b)) => match VioStatus::parse(b) {
                Err(e) => Err(e),
                Ok((status, b)) => match PoseModel::parse_snapshot(b) {
                    Err(e) => Err(e),
                    Ok((map_points, b)) => Ok(
                        (
                            PoseModel {
                                cam_in_world: RigidPose::of_entries(entries),
                                status,
                                map_points,
                            },
                            b,
                        ),
                    ),
                },
            },
        }
    }
}

impl View for VioPose {
    type V = PoseModel;

    open spec fn view(&self) -> PoseModel {
        PoseModel {
            cam_in_world: self.cam_in_world,
            status: self.status,
            map_points: match self.map_points {
                Some(points) => Some(points@),
                None => None,
            },
        }
    }
}

fn put_matrix(out: &mut Vec<u8>, m: &[[Double; 4]; 4])
    ensures
        final(out)@ == old(out)@ + doubles_wire(matrix_entries(*m)),
{
    let ghost head = out@;
    let ghost all = matrix_entries(*m);
    let mut i: usize = 0;
    assert(all.skip(0) =~= all);
    while i < 16
        invariant
            i <= 16,
            all == matrix_entries(*m),
            head + doubles_wire(all) == out@ + doubles_wire(all.skip(i as int)),
        decreases 16 - i,
    {
        let ghost before = out@;
        let x = m[i / 4][i % 4];
        put_double(out, x);
        proof {
            assert(all.skip(i as int)[0] == x);
            assert(all.skip(i as int).skip(1) =~= all.skip(i + 1));
            assert(before + doubles_wire(all.skip(i as int)) =~= out@ + doubles_wire(
                all.skip(i + 1),
            ));
        }
        i += 1;
    }
    assert(out@ + doubles_wire(all.skip(i as int)) =~= out@);
}

fn get_doubles(bytes: &[u8], start: usize, n: usize) -> (r: Result<(Vec<Double>, usize), WireError>)
    requires
        start <= bytes@.len(),
    ensures
        match r {
            Ok((v, next)) => next <= bytes@.len() && v@.len() == n && parse_doubles(
                bytes@.skip(start as int),
                n as nat,
            ) == Ok::<(Seq<Double>, Seq<u8>), WireError>((v@, bytes@.skip(next as int))),
            Err(e) => parse_doubles(bytes@.skip(start as int), n as nat) == Err::<
                (Seq<Double>, Seq<u8>),
                WireError,
            >(e),
        },
{
    let mut v: Vec<Double> = Vec::new();
    let mut pos: usize = start;
    let mut i: usize = 0;
    let ghost whole = parse_doubles(bytes@.skip(start as int), n as nat);
    proof {
        match whole {
            Ok((rest, b)) => {
                assert(v@ + rest =~= rest);
            },
            Err(_) => {},
        }
    }
    while i < n
        invariant
            i <= n,
            pos <= bytes@.len(),
            v@.len() == i,
            whole == parse_doubles(bytes@.skip(start as int), n as nat),
            whole == match parse_doubles(bytes@.skip(pos as int), (n - i) as nat) {
                Ok((rest, b)) => Ok::<(Seq<Double>, Seq<u8>), WireError>((v@ + rest, b)),
                Err(e) => Err(e),
            },
        decreases n - i,
    {
        let ghost before = v@;
        let (x, next) = match get_double(bytes, pos) {
            Ok(x) => x,
            Err(e) => {
                return Err(e);
            },
        };
        v.push(x);
        pos = next;
        proof {
            match parse_doubles(bytes@.skip(pos as int), (n - i - 1) as nat) {
                Ok((rest, b)) => {
                    assert(before + (seq![x] + rest) =~= v@ + rest);
                },
                Err(_) => {},
            }
        }
        i += 1;
    }
    assert(v@ + Seq::<Double>::empty() =~= v@);
    Ok((v, pos))
}

fn get_landmarks(bytes: &[u8], start: usize, n: u64) -> (r: Result<
    (Vec<Landmark>, usize),
    WireError,
>)
    requires
        start <= bytes@.len(),
    ensures
        match r {
            Ok((v, next)) => next <= bytes@.len() && parse_landmarks(
                bytes@.skip(start as int),
                n as nat,
            ) == Ok::<(Seq<Landmark>, Seq<u8>), WireError>((v@, bytes@.skip(next as int))),
            Err(e) => parse_landmarks(bytes@.skip(start as int), n as nat) == Err::<
                (Seq<Landmark>, Seq<u8>),
                WireError,
            >(e),
        },
{
    let mut v: Vec<Landmark> = Vec::new();
    let mut pos: usize = start;
    let mut i: u64 = 0;
    let ghost whole = parse_landmarks(bytes@.skip(start as int), n as nat);
    proof {
        match whole {
            Ok((rest, b)) => {
                assert(v@ + rest =~= rest);
            },
            Err(_) => {},
        }
    }
    while i < n
        invariant
            i <= n,
            pos <= bytes@.len(),
            whole == parse_landmarks(bytes@.skip(start as int), n as nat),
            whole == match parse_landmarks(bytes@.skip(pos as int), (n - i) as nat) {
                Ok((rest, b)) => Ok::<(Seq<Landmark>, Seq<u8>), WireError>((v@ + rest, b)),
                Err(e) => Err(e),
            },
        decreases n - i,
    {
        let ghost before = v@;
        let (x, next) = match get_landmark(bytes, pos) {
            Ok(x) => x,
            Err(e) => {
                return Err(e);
            },
        };
        v.push(x);
        pos = next;
        proof {
            match parse_landmarks(bytes@.skip(pos as int), (n - i - 1) as nat) {
                Ok((rest, b)) => {
                    assert(before + (seq![x] + rest) =~= v@ + rest);
                },
                Err(_) => {},
            }
        }
        i += 1;
    }
    assert(v@ + Seq::<Landmark>::empty() =~= v@);
    Ok((v, pos))
}

fn put_landmarks(out: &mut Vec<u8>, points: &Vec<Landmark>)
    ensures
        final(out)@ == old(out)@ + landmarks_wire(points@),
{
    let ghost head = out@;
    let ghost all = points@;
    let mut i: usize = 0;
    assert(all.skip(0) =~= all);
    while i < points.len()
        invariant
            all == points@,
            i <= all.len(),
            head + landmarks_wire(all) == out@ + landmarks_wire(all.skip(i as int)),
        decreases all.len() - i,
    {
        let ghost before = out@;
        put_landmark(out, &points[i]);
        proof {
            assert(all.skip(i as int).skip(1) =~= all.skip(i + 1));
            assert(before + landmarks_wire(all.skip(i as int)) =~= out@ + landmarks_wire(
                all.skip(i + 1),
            ));
        }
        i += 1;
    }
    assert(out@ + landmarks_wire(all.skip(i as int)) =~= out@);
}

fn get_snapshot(bytes: &[u8], pos: usize) -> (r: Result<(Option<Vec<Landmark>>, usize), WireError>)
    requires
        pos <= bytes@.len(),
    ensures
        match r {
            Ok((v, next)) => next <= bytes@.len() && PoseModel::parse_snapshot(
                bytes@.skip(pos as int),
            ) == Ok::<(Option<Seq<Landmark>>, Seq<u8>), WireError>(
                (
                    match v {
                        Some(points) => Some(points@),
                        None => None,
                    },
                    bytes@.skip(next as int),
                ),
            ),
            Err(e) => PoseModel::parse_snapshot(bytes@.skip(pos as int)) == Err::<
                (Option<Seq<Landmark>>, Seq<u8>),
                WireError,
            >(e),
        },
{
    if pos == bytes.len() {
        return Err(WireError::Malformed);
    }
    let tag: u8 = bytes[pos];
    assert(bytes@.skip(pos as int)[0] == tag);
    assert(bytes@.skip(pos as int).skip(1) =~= bytes@.skip(pos + 1));
    if tag == 0 {
        return Ok((None, pos + 1));
    }
    if tag != 1 {
        return Err(WireError::InvalidOption(tag));
    }
    let (n, p1) = match get_u64(bytes, pos + 1) {
        Ok(x) => x,
        Err(e) => {
            return Err(e);
        },
    };
    match get_landmarks(bytes, p1, n) {
        Ok((points, p2)) => Ok((Some(points), p2)),
        Err(e) => Err(e),
    }
}

impl VioPose {
    /// Encodes the pose.
    pub fn encode(&self) -> (r: Vec<u8>)
        ensures
            r@ == self@.wire(),
    {
        let mut out: Vec<u8> = Vec::new();
        put_matrix(&mut out, &self.cam_in_world.to_matrix());
        put_status(&mut out, &self.status);
        let ghost head = out@;
        match &self.map_points {
            None => {
                out.push(0);
            },
            Some(points) => {
                out.push(1);
                put_varint(&mut out, points.len() as u64);
                put_landmarks(&mut out, points);
            },
        }
        assert(out@ =~= head + self@.snapshot_wire());
        assert(out@ =~= self@.wire());
        out
    }

    /// Decodes a pose off the front of bytes, with the number of bytes read.
    pub fn decode(bytes: &[u8]) -> (r: Result<(VioPose, usize), WireError>)
        ensures
            match r {
                Ok((v, used)) => used <= bytes@.len() && PoseModel::parse(bytes@) == Ok::<
                    (PoseModel, Seq<u8>),
                    WireError,
                >((v@, bytes@.skip(used as int))),
                Err(e) => PoseModel::parse(bytes@) == Err::<(PoseModel, Seq<u8>), WireError>(e),
            },
    {
        assert(bytes@.skip(0) =~= bytes@);
        let (m, p1) = match get_doubles(bytes, 0, 16) {
            Ok(x) => x,
            Err(e) => {
                return Err(e);
            },
        };
        let (status, p2) = match get_status(bytes, p1) {
            Ok(x) => x,
            Err(e) => {
                return Err(e);
            },
        };
        let (map_points, p3) = match get_snapshot(bytes, p2) {
            Ok(x) => x,
            Err(e) => {
                return Err(e);
            },
        };
        let rows = [
            [m[0], m[1], m[2], m[3]],
            [m[4], m[5], m[6], m[7]],
            [m[8], m[9], m[10], m[11]],
            [m[12], m[13], m[14], m[15]],
        ];
        proof {
            let e = matrix_entries(rows);
            assert(e[0] == m@[0] && e[1] == m@[1] && e[2] == m@[2] && e[3] == m@[3]);
            assert(e[4] == m@[4] && e[5] == m@[5] && e[6] == m@[6] && e[7] == m@[7]);
            assert(e[8] == m@[8] && e[9] == m@[9] && e[10] == m@[10] && e[11] == m@[11]);
            assert(e[12] == m@[12] && e[13] == m@[13] && e[14] == m@[14] && e[15] == m@[15]);
            assert(e =~= m@);
        }
        let cam_in_world = RigidPose::from_matrix(&rows);
        Ok((VioPose { cam_in_world, status, map_points }, p3))
    }
}

/// Decoding a pose undoes encoding it, whatever follows, with its snapshot or without.
pub proof fn vio_pose_round_trips(x: PoseModel, rest: Seq<u8>)
    requires
        x.map_points matches Some(points) ==> points.len() <= u64::MAX,
    ensures
        PoseModel::parse(x.wire() + rest) == Ok::<(PoseModel, Seq<u8>), WireError>((x, rest)),
{
    let t2 = x.snapshot_wire() + rest;
    let t1 = x.status.wire() + t2;
    assert(x.wire() + rest =~= doubles_wire(x.cam_in_world.entries()) + t1);
    lemma_doubles_round_trip(x.cam_in_world.entries(), t1);
    crate::geometry::a_transform_is_read_back(x.cam_in_world);
    lemma_status_round_trip(x.status, t2);
    match x.map_points {
        None => {
            assert(t2.skip(1) =~= rest);
        },
        Some(points) => {
            let t4 = landmarks_wire(points) + rest;
            assert(t2.skip(1) =~= varint(points.len() as u64) + t4);
            lemma_u64_round_trip(points.len() as u64, t4);
            lemma_landmarks_round_trip(points, rest);
        },
    }
}

} // verus!
