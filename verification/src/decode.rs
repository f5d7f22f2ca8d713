//! The encoding dispatcher and the simple fixed-width decoders, together
//! with the byte-order readers every part of the parser shares.
//!
//! Header fields are little-endian; Steim data words are big-endian. Floats
//! are carried as their IEEE-754 bit patterns, so decoding them is byte
//! assembly and nothing more.

use vstd::prelude::*;

verus! {

use crate::error::{MS_OUTOFRANGE, MS_UNKNOWNFORMAT, MS_WRONGLENGTH};
use crate::steim::{decode_steim, spec_steim};
use crate::MSError;
use crate::MSSampleType;
use crate::Result;

// Data-encoding tags of the format, one per historical sample encoding.
pub const DE_ASCII: i8 = 0;
pub const DE_INT16: i8 = 1;
pub const DE_INT32: i8 = 3;
pub const DE_FLOAT32: i8 = 4;
pub const DE_FLOAT64: i8 = 5;
pub const DE_STEIM1: i8 = 10;
pub const DE_STEIM2: i8 = 11;
pub const DE_GEOSCOPE24: i8 = 12;
pub const DE_GEOSCOPE163: i8 = 13;
pub const DE_GEOSCOPE164: i8 = 14;
pub const DE_CDSN: i8 = 16;
pub const DE_SRO: i8 = 30;
pub const DE_DWWSSN: i8 = 32;

/// The unsigned 16-bit value stored little-endian at byte offset `i`.
pub open spec fn spec_u16_le(s: Seq<u8>, i: int) -> u16 {
    (s[i] + s[i + 1] * 0x100) as u16
}

/// The unsigned 32-bit value stored little-endian at byte offset `i`.
pub open spec fn spec_u32_le(s: Seq<u8>, i: int) -> u32 {
    (s[i] + s[i + 1] * 0x100 + s[i + 2] * 0x1_0000 + s[i + 3] * 0x100_0000) as u32
}

/// The unsigned 64-bit value stored little-endian at byte offset `i`.
pub open spec fn spec_u64_le(s: Seq<u8>, i: int) -> u64 {
    (spec_u32_le(s, i) + spec_u32_le(s, i + 4) * 0x1_0000_0000) as u64
}

/// The unsigned 32-bit value stored big-endian at byte offset `i`.
pub open spec fn spec_u32_be(s: Seq<u8>, i: int) -> u32 {
    (s[i] * 0x100_0000 + s[i + 1] * 0x1_0000 + s[i + 2] * 0x100 + s[i + 3]) as u32
}

/// Two's-complement reading of `v` as a signed field: `half` is half the
/// field's modulus `full`, and values of `half` and above are negative.
pub open spec fn spec_sext(v: int, half: int, full: int) -> int {
    if v < half {
        v
    } else {
        v - full
    }
}

pub(crate) fn read_u16_le(s: &[u8], i: usize) -> (r: u16)
    requires
        i + 2 <= s@.len(),
    ensures
        r == spec_u16_le(s@, i as int),
{
    (s[i] as u16) + (s[i + 1] as u16) * 0x100
}

pub(crate) fn read_u32_le(s: &[u8], i: usize) -> (r: u32)
    requires
        i + 4 <= s@.len(),
    ensures
        r == spec_u32_le(s@, i as int),
{
    (s[i] as u32) + (s[i + 1] as u32) * 0x100 + (s[i + 2] as u32) * 0x1_0000 + (s[i + 3] as u32)
        * 0x100_0000
}

pub(crate) fn read_u64_le(s: &[u8], i: usize) -> (r: u64)
    requires
        i + 8 <= s@.len(),
    ensures
        r == spec_u64_le(s@, i as int),
{
    proof {
        vstd::slice::axiom_spec_len(s);
    }
    (read_u32_le(s, i) as u64) + (read_u32_le(s, i + 4) as u64) * 0x1_0000_0000
}

pub(crate) fn read_u32_be(s: &[u8], i: usize) -> (r: u32)
    requires
        i + 4 <= s@.len(),
    ensures
        r == spec_u32_be(s@, i as int),
{
    (s[i] as u32) * 0x100_0000 + (s[i + 1] as u32) * 0x1_0000 + (s[i + 2] as u32) * 0x100 + (s[i
        + 3] as u32)
}

/// The decoded samples of a record: a homogeneous sequence tagged by sample
/// type. Floating-point samples are held as their IEEE-754 bit patterns.
#[derive(Clone, Debug, PartialEq)]
pub enum SampleBuffer {
    Ascii(Vec<u8>),
    Integer32(Vec<i32>),
    Float32(Vec<u32>),
    Float64(Vec<u64>),
}

/// The mathematical shadow of a `SampleBuffer`.
pub enum SampleData {
    Ascii(Seq<u8>),
    Integer32(Seq<i32>),
    Float32(Seq<u32>),
    Float64(Seq<u64>),
}

impl View for SampleBuffer {
    type V = SampleData;

    open spec fn view(&self) -> SampleData {
        match self {
            SampleBuffer::Ascii(v) => SampleData::Ascii(v@),
            SampleBuffer::Integer32(v) => SampleData::Integer32(v@),
            SampleBuffer::Float32(v) => SampleData::Float32(v@),
            SampleBuffer::Float64(v) => SampleData::Float64(v@),
        }
    }
}

impl SampleData {
    /// Number of samples held.
    pub open spec fn count(&self) -> nat {
        match self {
            SampleData::Ascii(s) => s.len(),
            SampleData::Integer32(s) => s.len(),
            SampleData::Float32(s) => s.len(),
            SampleData::Float64(s) => s.len(),
        }
    }

    /// Width in bytes of one sample.
    pub open spec fn width(&self) -> int {
        match self {
            SampleData::Ascii(_) => 1,
            SampleData::Integer32(_) => 4,
            SampleData::Float32(_) => 4,
            SampleData::Float64(_) => 8,
        }
    }

    /// The sample-type tag the buffer carries.
    pub open spec fn sample_type(&self) -> MSSampleType {
        match self {
            SampleData::Ascii(_) => MSSampleType::Ascii,
            SampleData::Integer32(_) => MSSampleType::Integer32,
            SampleData::Float32(_) => MSSampleType::Float32,
            SampleData::Float64(_) => MSSampleType::Float64,
        }
    }
}

impl SampleBuffer {
    /// Number of samples held.
    pub fn len(&self) -> (r: usize)
        ensures
            r == self@.count(),
    {
        match self {
            SampleBuffer::Ascii(v) => v.len(),
            SampleBuffer::Integer32(v) => v.len(),
            SampleBuffer::Float32(v) => v.len(),
            SampleBuffer::Float64(v) => v.len(),
        }
    }

    /// The sample-type tag the buffer carries.
    pub fn sample_type(&self) -> (r: MSSampleType)
        ensures
            r == self@.sample_type(),
    {
        match self {
            SampleBuffer::Ascii(_) => MSSampleType::Ascii,
            SampleBuffer::Integer32(_) => MSSampleType::Integer32,
            SampleBuffer::Float32(_) => MSSampleType::Float32,
            SampleBuffer::Float64(_) => MSSampleType::Float64,
        }
    }
}

/// The 32-bit integer samples of a little-endian 16-bit payload, widened.
pub open spec fn spec_int16_samples(p: Seq<u8>, cnt: int) -> Seq<i32> {
    Seq::new(cnt as nat, |i: int| spec_sext(spec_u16_le(p, 2 * i) as int, 0x8000, 0x1_0000) as i32)
}

/// The 32-bit integer samples of a little-endian 32-bit payload.
pub open spec fn spec_int32_samples(p: Seq<u8>, cnt: int) -> Seq<i32> {
    Seq::new(
        cnt as nat,
        |i: int| spec_sext(spec_u32_le(p, 4 * i) as int, 0x8000_0000, 0x1_0000_0000) as i32,
    )
}

/// The bit patterns of a little-endian 32-bit float payload.
pub open spec fn spec_float32_samples(p: Seq<u8>, cnt: int) -> Seq<u32> {
    Seq::new(cnt as nat, |i: int| spec_u32_le(p, 4 * i))
}

/// The bit patterns of a little-endian 64-bit float payload.
pub open spec fn spec_float64_samples(p: Seq<u8>, cnt: int) -> Seq<u64> {
    Seq::new(cnt as nat, |i: int| spec_u64_le(p, 8 * i))
}

/// What decoding a payload under an encoding tag yields: the typed samples,
/// or the raw code of the error.
///
/// Text and the fixed-width encodings demand a payload of exactly the
/// declared count of elements (one byte per text sample): a shorter one is
/// a wrong-length error, a longer one is out of range, so the decoded count
/// never exceeds the declared count. The Steim encodings delegate. The
/// remaining recognized tags carry historical encodings whose decoding is
/// unsupported, and they fail, like every unknown tag, as an unknown format.
pub open spec fn spec_decode(enc: i8, p: Seq<u8>, cnt: u32) -> std::result::Result<SampleData, i32> {
    if enc == DE_ASCII {
        if p.len() < cnt {
            Err(MS_WRONGLENGTH)
        } else if p.len() > cnt {
            Err(MS_OUTOFRANGE)
        } else {
            Ok(SampleData::Ascii(p))
        }
    } else if enc == DE_INT16 {
        if p.len() < 2 * cnt {
            Err(MS_WRONGLENGTH)
        } else if p.len() > 2 * cnt {
            Err(MS_OUTOFRANGE)
        } else {
            Ok(SampleData::Integer32(spec_int16_samples(p, cnt as int)))
        }
    } else if enc == DE_INT32 {
        if p.len() < 4 * cnt {
            Err(MS_WRONGLENGTH)
        } else if p.len() > 4 * cnt {
            Err(MS_OUTOFRANGE)
        } else {
            Ok(SampleData::Integer32(spec_int32_samples(p, cnt as int)))
        }
    } else if enc == DE_FLOAT32 {
        if p.len() < 4 * cnt {
            Err(MS_WRONGLENGTH)
        } else if p.len() > 4 * cnt {
            Err(MS_OUTOFRANGE)
        } else {
            Ok(SampleData::Float32(spec_float32_samples(p, cnt as int)))
        }
    } else if enc == DE_FLOAT64 {
        if p.len() < 8 * cnt {
            Err(MS_WRONGLENGTH)
        } else if p.len() > 8 * cnt {
            Err(MS_OUTOFRANGE)
        } else {
            Ok(SampleData::Float64(spec_float64_samples(p, cnt as int)))
        }
    } else if enc == DE_STEIM1 {
        match spec_steim(p, false, cnt) {
            Ok(s) => Ok(SampleData::Integer32(s)),
            Err(c) => Err(c),
        }
    } else if enc == DE_STEIM2 {
        match spec_steim(p, true, cnt) {
            Ok(s) => Ok(SampleData::Integer32(s)),
            Err(c) => Err(c),
        }
    } else {
        Err(MS_UNKNOWNFORMAT)
    }
}

fn read_i16_widened(s: &[u8], i: usize) -> (r: i32)
    requires
        i + 2 <= s@.len(),
    ensures
        r as int == spec_sext(spec_u16_le(s@, i as int) as int, 0x8000, 0x1_0000),
{
    let w = read_u16_le(s, i);
    if w >= 0x8000 {
        (w as i32) - 0x1_0000
    } else {
        w as i32
    }
}

fn read_i32_le(s: &[u8], i: usize) -> (r: i32)
    requires
        i + 4 <= s@.len(),
    ensures
        r as int == spec_sext(spec_u32_le(s@, i as int) as int, 0x8000_0000, 0x1_0000_0000),
{
    let w = read_u32_le(s, i);
    if w >= 0x8000_0000 {
        ((w as i64) - 0x1_0000_0000i64) as i32
    } else {
        w as i32
    }
}

#[verifier::loop_isolation(false)]
fn decode_int16(p: &[u8], cnt: u32) -> (v: Vec<i32>)
    requires
        p@.len() == 2 * cnt,
    ensures
        v@ == spec_int16_samples(p@, cnt as int),
{
    proof {
        vstd::slice::axiom_spec_len(p);
    }
    let n = cnt as usize;
    let mut v: Vec<i32> = Vec::new();
    let mut i: usize = 0;
    while i < n
        invariant
            2 * n == p@.len(),
            0 <= i <= n,
            v@.len() == i,
            forall|j: int|
                0 <= j < i ==> v@[j] as int == spec_sext(
                    spec_u16_le(p@, 2 * j) as int,
                    0x8000,
                    0x1_0000,
                ),
        decreases n - i,
    {
        v.push(read_i16_widened(p, 2 * i));
        i += 1;
    }
    proof {
        assert(v@ =~= spec_int16_samples(p@, cnt as int));
    }
    v
}

#[verifier::loop_isolation(false)]
fn decode_int32(p: &[u8], cnt: u32) -> (v: Vec<i32>)
    requires
        p@.len() == 4 * cnt,
    ensures
        v@ == spec_int32_samples(p@, cnt as int),
{
    proof {
        vstd::slice::axiom_spec_len(p);
    }
    let n = cnt as usize;
    let mut v: Vec<i32> = Vec::new();
    let mut i: usize = 0;
    while i < n
        invariant
            4 * n == p@.len(),
            0 <= i <= n,
            v@.len() == i,
            forall|j: int|
                0 <= j < i ==> v@[j] as int == spec_sext(
                    spec_u32_le(p@, 4 * j) as int,
                    0x8000_0000,
                    0x1_0000_0000,
                ),
        decreases n - i,
    {
        v.push(read_i32_le(p, 4 * i));
        i += 1;
    }
    proof {
        assert(v@ =~= spec_int32_samples(p@, cnt as int));
    }
    v
}

#[verifier::loop_isolation(false)]
fn decode_float32(p: &[u8], cnt: u32) -> (v: Vec<u32>)
    requires
        p@.len() == 4 * cnt,
    ensures
        v@ == spec_float32_samples(p@, cnt as int),
{
    proof {
        vstd::slice::axiom_spec_len(p);
    }
    let n = cnt as usize;
    let mut v: Vec<u32> = Vec::new();
    let mut i: usize = 0;
    while i < n
        invariant
            4 * n == p@.len(),
            0 <= i <= n,
            v@.len() == i,
            forall|j: int| 0 <= j < i ==> v@[j] == spec_u32_le(p@, 4 * j),
        decreases n - i,
    {
        v.push(read_u32_le(p, 4 * i));
        i += 1;
    }
    proof {
        assert(v@ =~= spec_float32_samples(p@, cnt as int));
    }
    v
}

#[verifier::loop_isolation(false)]
fn decode_float64(p: &[u8], cnt: u32) -> (v: Vec<u64>)
    requires
        p@.len() == 8 * cnt,
    ensures
        v@ == spec_float64_samples(p@, cnt as int),
{
    proof {
        vstd::slice::axiom_spec_len(p);
    }
    let n = cnt as usize;
    let mut v: Vec<u64> = Vec::new();
    let mut i: usize = 0;
    while i < n
        invariant
            8 * n == p@.len(),
            0 <= i <= n,
            v@.len() == i,
            forall|j: int| 0 <= j < i ==> v@[j] == spec_u64_le(p@, 8 * j),
        decreases n - i,
    {
        v.push(read_u64_le(p, 8 * i));
        i += 1;
    }
    proof {
        assert(v@ =~= spec_float64_samples(p@, cnt as int));
    }
    v
}

fn copy_bytes(p: &[u8]) -> (v: Vec<u8>)
    ensures
        v@ == p@,
{
    let mut v: Vec<u8> = Vec::new();
    let mut i: usize = 0;
    while i < p.len()
        invariant
            0 <= i <= p@.len(),
            v@.len() == i,
            forall|j: int| 0 <= j < i ==> v@[j] == p@[j],
        decreases p@.len() - i,
    {
        v.push(p[i]);
        i += 1;
    }
    proof {
        assert(v@ =~= p@);
    }
    v
}

/// Route a raw data payload to its decoder by encoding tag, demanding
/// `sample_count` samples.
pub fn decode_payload(encoding: i8, payload: &[u8], sample_count: u32) -> (r: Result<SampleBuffer>)
    ensures
        match spec_decode(encoding, payload@, sample_count) {
            Ok(d) => r matches Ok(b) && b@ == d,
            Err(c) => r matches Err(e) && e.spec_code() == c,
        },
{
    let plen = payload.len() as u64;
    if encoding == DE_ASCII {
        if plen < sample_count as u64 {
            Err(MSError::from_raw(MS_WRONGLENGTH))
        } else if plen > sample_count as u64 {
            Err(MSError::from_raw(MS_OUTOFRANGE))
        } else {
            Ok(SampleBuffer::Ascii(copy_bytes(payload)))
        }
    } else if encoding == DE_INT16 {
        if plen < 2 * (sample_count as u64) {
            Err(MSError::from_raw(MS_WRONGLENGTH))
        } else if plen > 2 * (sample_count as u64) {
            Err(MSError::from_raw(MS_OUTOFRANGE))
        } else {
            Ok(SampleBuffer::Integer32(decode_int16(payload, sample_count)))
        }
    } else if encoding == DE_INT32 {
        if plen < 4 * (sample_count as u64) {
            Err(MSError::from_raw(MS_WRONGLENGTH))
        } else if plen > 4 * (sample_count as u64) {
            Err(MSError::from_raw(MS_OUTOFRANGE))
        } else {
            Ok(SampleBuffer::Integer32(decode_int32(payload, sample_count)))
        }
    } else if encoding == DE_FLOAT32 {
        if plen < 4 * (sample_count as u64) {
            Err(MSError::from_raw(MS_WRONGLENGTH))
        } else if plen > 4 * (sample_count as u64) {
            Err(MSError::from_raw(MS_OUTOFRANGE))
        } else {
            Ok(SampleBuffer::Float32(decode_float32(payload, sample_count)))
        }
    } else if encoding == DE_FLOAT64 {
        if plen < 8 * (sample_count as u64) {
            Err(MSError::from_raw(MS_WRONGLENGTH))
        } else if plen > 8 * (sample_count as u64) {
            Err(MSError::from_raw(MS_OUTOFRANGE))
        } else {
            Ok(SampleBuffer::Float64(decode_float64(payload, sample_count)))
        }
    } else if encoding == DE_STEIM1 {
        match decode_steim(payload, false, sample_count) {
            Ok(v) => Ok(SampleBuffer::Integer32(v)),
            Err(e) => Err(e),
        }
    } else if encoding == DE_STEIM2 {
        match decode_steim(payload, true, sample_count) {
            Ok(v) => Ok(SampleBuffer::Integer32(v)),
            Err(e) => Err(e),
        }
    } else {
        Err(MSError::from_raw(MS_UNKNOWNFORMAT))
    }
}

} // verus!
