//! Decoder for MiniSEED, the binary record format used to archive and
//! exchange seismological waveform time series.
//!
//! A record is parsed out of a plain byte buffer: fixed header, source
//! identifier, extra headers and an encoded data payload, which can be
//! decoded into typed sample sequences (Steim1/Steim2 compressed integers,
//! fixed-width integers and floats, or text). Records own their bytes;
//! nothing here does I/O.

use vstd::prelude::*;

pub mod decode;
pub mod error;
pub mod steim;
pub mod util;

pub use decode::SampleBuffer;
pub use error::MSError;
pub use util::DecodedTime;
pub use util::NSLC;

verus! {

use crate::decode::{
    decode_payload,
    spec_decode,
    spec_sext,
    spec_u16_le,
    spec_u32_le,
    spec_u64_le,
    read_u16_le,
    read_u32_le,
    read_u64_le,
    SampleData,
    DE_ASCII,
    DE_INT16,
    DE_INT32,
    DE_FLOAT32,
    DE_FLOAT64,
    DE_STEIM1,
    DE_STEIM2,
    DE_GEOSCOPE24,
    DE_GEOSCOPE163,
    DE_GEOSCOPE164,
    DE_CDSN,
    DE_SRO,
    DE_DWWSSN,
};
use crate::error::{
    MS_GENERROR,
    MS_INVALIDCRC,
    MS_NOTSEED,
    MS_OUTOFRANGE,
    MS_UNKNOWNFORMAT,
    MS_WRONGLENGTH,
};
use crate::steim::lemma_steim_count;
use crate::util::{
    copy_range,
    lossy_trimmed_string,
    nanos_from_fields,
    nstime_to_time,
    spec_all_ascii,
    spec_ascii_chars,
    spec_sid_body,
    spec_trim_nul,
    spec_unders,
    trim_nul,
};

/// An enumeration of possible sample types.
#[derive(Debug, Eq, PartialEq, Copy, Clone, Structural)]
pub enum MSSampleType {
    Ascii,
    Integer32,
    Float32,
    Float64,
}

impl MSSampleType {
    /// Create a `MSSampleType` from the given `ch`, the ASCII tag character
    /// of the type: `a`, `i`, `f` or `d`.
    pub fn try_from_char(ch: i8) -> (r: Result<Self>)
        ensures
            match r {
                Ok(t) => (ch == 97 && t == MSSampleType::Ascii) || (ch == 105 && t
                    == MSSampleType::Integer32) || (ch == 102 && t == MSSampleType::Float32) || (ch
                    == 100 && t == MSSampleType::Float64),
                Err(e) => ch != 97 && ch != 105 && ch != 102 && ch != 100 && e.spec_code()
                    == MS_GENERROR,
            },
    {
        match ch {
            97 => Ok(Self::Ascii),  // a
            105 => Ok(Self::Integer32),  // i
            102 => Ok(Self::Float32),  // f
            100 => Ok(Self::Float64),  // d
            _ => Err(MSError::from_str("invalid sample type")),
        }
    }
}

/// An enumeration of possible data encodings.
#[derive(Debug, Eq, PartialEq, Copy, Clone, Structural)]
pub enum MSDataEncoding {
    Ascii,
    Integer16,
    Integer32,
    Float32,
    Float64,
    Steim1,
    Steim2,
    GeoScope24,
    GeoScope163,
    GeoScope164,
    CDSN,
    SRO,
    DWWSSN,
}

/// The encoding a raw tag byte stands for, when it is recognized.
pub open spec fn spec_encoding_of(ch: i8) -> Option<MSDataEncoding> {
    if ch == DE_ASCII {
        Some(MSDataEncoding::Ascii)
    } else if ch == DE_INT16 {
        Some(MSDataEncoding::Integer16)
    } else if ch == DE_INT32 {
        Some(MSDataEncoding::Integer32)
    } else if ch == DE_FLOAT32 {
        Some(MSDataEncoding::Float32)
    } else if ch == DE_FLOAT64 {
        Some(MSDataEncoding::Float64)
    } else if ch == DE_STEIM1 {
        Some(MSDataEncoding::Steim1)
    } else if ch == DE_STEIM2 {
        Some(MSDataEncoding::Steim2)
    } else if ch == DE_GEOSCOPE24 {
        Some(MSDataEncoding::GeoScope24)
    } else if ch == DE_GEOSCOPE163 {
        Some(MSDataEncoding::GeoScope163)
    } else if ch == DE_GEOSCOPE164 {
        Some(MSDataEncoding::GeoScope164)
    } else if ch == DE_CDSN {
        Some(MSDataEncoding::CDSN)
    } else if ch == DE_SRO {
        Some(MSDataEncoding::SRO)
    } else if ch == DE_DWWSSN {
        Some(MSDataEncoding::DWWSSN)
    } else {
        None
    }
}

impl MSDataEncoding {
    /// Create a `MSDataEncoding` from the given `ch`, the raw encoding tag.
    /// An unrecognized tag is an unknown-format error.
    pub fn try_from_char(ch: i8) -> (r: Result<Self>)
        ensures
            match r {
                Ok(e) => spec_encoding_of(ch) == Some(e),
                Err(e) => spec_encoding_of(ch) is None && e.spec_code() == MS_UNKNOWNFORMAT,
            },
    {
        if ch == DE_ASCII {
            Ok(Self::Ascii)
        } else if ch == DE_INT16 {
            Ok(Self::Integer16)
        } else if ch == DE_INT32 {
            Ok(Self::Integer32)
        } else if ch == DE_FLOAT32 {
            Ok(Self::Float32)
        } else if ch == DE_FLOAT64 {
            Ok(Self::Float64)
        } else if ch == DE_STEIM1 {
            Ok(Self::Steim1)
        } else if ch == DE_STEIM2 {
            Ok(Self::Steim2)
        } else if ch == DE_GEOSCOPE24 {
            Ok(Self::GeoScope24)
        } else if ch == DE_GEOSCOPE163 {
            Ok(Self::GeoScope163)
        } else if ch == DE_GEOSCOPE164 {
            Ok(Self::GeoScope164)
        } else if ch == DE_CDSN {
            Ok(Self::CDSN)
        } else if ch == DE_SRO {
            Ok(Self::SRO)
        } else if ch == DE_DWWSSN {
            Ok(Self::DWWSSN)
        } else {
            Err(MSError::from_raw(MS_UNKNOWNFORMAT))
        }
    }
}

/// An enumeration of possible errors that can happen when working with MiniSEED records.
#[derive(PartialEq, Eq, Clone, Copy, Debug, Structural)]
pub enum MSErrorCode {
    /// Generic unspecified error
    GenericError,
    /// Data not SEED
    NotSEED,
    /// Length of data read was incorrect
    WrongLength,
    /// SEED record length out of range
    OutOfRange,
    /// Unknown data encoding format
    UnknownFormat,
    /// Steim, invalid compression
    SteimBadCompressionFlag,
    /// Invalid CRC
    InvalidCRC,
}

/// A specialized library `Result` type.
pub type Result<T> = std::result::Result<T, MSError>;

/// Length in bytes of the fixed header that opens every record.
pub const FIXED_HEADER_LEN: u32 = 40;

/// The largest record length the format accepts.
pub const MAXRECLEN: u32 = 10_485_760;

/// The CRC-32C (Castagnoli) checksum of a byte sequence.
pub uninterp spec fn spec_crc32c(data: Seq<u8>) -> u32;

/// Relies on `crc32c::crc32c`: the CRC-32C checksum of the bytes, a
/// function of the bytes alone.
#[verifier::external_body]
fn crc32c_of_bytes(data: &[u8]) -> (r: u32)
    ensures
        r == spec_crc32c(data@),
{
    crc32c::crc32c(data)
}

/// The first `reclen` buffer bytes with the CRC field (bytes 28..32) zeroed:
/// what the record's checksum is computed over.
pub open spec fn spec_crc_input(buf: Seq<u8>, reclen: int) -> Seq<u8> {
    Seq::new(
        reclen as nat,
        |i: int|
            if 28 <= i < 32 {
                0u8
            } else {
                buf[i]
            },
    )
}

fn crc_input_bytes(buf: &[u8], reclen: usize) -> (v: Vec<u8>)
    requires
        40 <= reclen <= buf@.len(),
    ensures
        v@ == spec_crc_input(buf@, reclen as int),
{
    let mut v: Vec<u8> = Vec::new();
    let mut i: usize = 0;
    while i < reclen
        invariant
            0 <= i <= reclen <= buf@.len(),
            v@.len() == i,
            forall|j: int|
                0 <= j < i ==> v@[j] == (if 28 <= j < 32 {
                    0u8
                } else {
                    buf@[j]
                }),
        decreases reclen - i,
    {
        if i >= 28 && i < 32 {
            v.push(0);
        } else {
            v.push(buf[i]);
        }
        i += 1;
    }
    proof {
        assert(v@ =~= spec_crc_input(buf@, reclen as int));
    }
    v
}

fn i8_from_byte(b: u8) -> (r: i8)
    ensures
        r as int == spec_sext(b as int, 0x80, 0x100),
{
    if b >= 128 {
        ((b as i16) - 256) as i8
    } else {
        b as i8
    }
}

/// The mathematical shadow of a record.
#[verifier::ext_equal]
pub struct RecordModel {
    pub sid: Seq<u8>,
    pub reclen: int,
    pub pubversion: int,
    pub starttime: int,
    pub samprate_bits: int,
    pub samplecnt: int,
    pub crc: int,
    pub encoding: int,
    pub extralength: int,
    pub datalength: int,
    pub payload: Seq<u8>,
    pub numsamples: int,
    pub datasize: int,
    pub samples: Option<SampleData>,
}

/// A parsed MiniSEED record: every header field copied into an owned,
/// native-width field at parse time, the raw payload owned by the record,
/// and the decoded samples owned by the record once decoding has happened.
#[derive(Debug)]
pub struct MSRecord {
    sid: Vec<u8>,
    reclen: u32,
    pubversion: u8,
    starttime: i64,
    samprate_bits: u64,
    samplecnt: i64,
    crc: u32,
    encoding: i8,
    extralength: u16,
    datalength: u32,
    payload: Vec<u8>,
    numsamples: i64,
    datasize: usize,
    samples: Option<SampleBuffer>,
}

impl View for MSRecord {
    type V = RecordModel;

    closed spec fn view(&self) -> RecordModel {
        RecordModel {
            sid: self.sid@,
            reclen: self.reclen as int,
            pubversion: self.pubversion as int,
            starttime: self.starttime as int,
            samprate_bits: self.samprate_bits as int,
            samplecnt: self.samplecnt as int,
            crc: self.crc as int,
            encoding: self.encoding as int,
            extralength: self.extralength as int,
            datalength: self.datalength as int,
            payload: self.payload@,
            numsamples: self.numsamples as int,
            datasize: self.datasize as int,
            samples: match &self.samples {
                Some(b) => Some(b@),
                None => None,
            },
        }
    }
}

/// What the minimal-prefix peek at a buffer yields: the total record length
/// declared by the fixed header, or the raw code of the error. The same
/// validation opens a full parse.
pub open spec fn spec_detect(buf: Seq<u8>) -> std::result::Result<int, i32> {
    if buf.len() < 2 {
        Err(MS_WRONGLENGTH)
    } else if !(buf[0] == 77 && buf[1] == 83) {
        Err(MS_NOTSEED)
    } else if buf.len() < 3 {
        Err(MS_WRONGLENGTH)
    } else if buf[2] != 3 {
        Err(MS_NOTSEED)
    } else if buf.len() < FIXED_HEADER_LEN {
        Err(MS_WRONGLENGTH)
    } else {
        let reclen = FIXED_HEADER_LEN + buf[33] + spec_u16_le(buf, 34) + spec_u32_le(buf, 36);
        if reclen > MAXRECLEN {
            Err(MS_OUTOFRANGE)
        } else {
            Ok(reclen)
        }
    }
}

/// What parsing a buffer yields: the record, or the raw code of the error.
///
/// The buffer must open with the format marker and hold the whole declared
/// record; the start-time fields must name a valid calendar instant whose
/// nanosecond count fits 64 signed bits; and when asked, the stored CRC must
/// match the CRC-32C of the record bytes with the CRC field zeroed, and the
/// payload must decode. Bytes past the declared record length are ignored.
pub open spec fn spec_parse(buf: Seq<u8>, unpack: bool, validate: bool) -> std::result::Result<
    RecordModel,
    i32,
> {
    match spec_detect(buf) {
        Err(c) => Err(c),
        Ok(reclen) => {
            let sidlen = buf[33] as int;
            let extralen = spec_u16_le(buf, 34) as int;
            if reclen > buf.len() {
                Err(MS_WRONGLENGTH)
            } else if validate && spec_crc32c(spec_crc_input(buf, reclen)) != spec_u32_le(
                buf,
                28,
            ) {
                Err(MS_INVALIDCRC)
            } else {
                let t = DecodedTime {
                    year: spec_u16_le(buf, 8),
                    yday: spec_u16_le(buf, 10),
                    hour: buf[12],
                    min: buf[13],
                    sec: buf[14],
                    nsec: spec_u32_le(buf, 4),
                };
                if !(t.valid() && i64::MIN <= t.nanos() <= i64::MAX) {
                    Err(MS_GENERROR)
                } else {
                    let m = RecordModel {
                        sid: buf.subrange(40, 40 + sidlen),
                        reclen,
                        pubversion: buf[32] as int,
                        starttime: t.nanos(),
                        samprate_bits: spec_u64_le(buf, 16) as int,
                        samplecnt: spec_u32_le(buf, 24) as int,
                        crc: spec_u32_le(buf, 28) as int,
                        encoding: spec_sext(buf[15] as int, 0x80, 0x100),
                        extralength: extralen,
                        datalength: spec_u32_le(buf, 36) as int,
                        payload: buf.subrange(40 + sidlen + extralen, reclen),
                        numsamples: 0,
                        datasize: 0,
                        samples: None,
                    };
                    if unpack {
                        spec_unpack(m)
                    } else {
                        Ok(m)
                    }
                }
            }
        },
    }
}

/// What unpacking a record's payload yields: the record with its decoded
/// samples, their count and their byte size filled in — or, when the
/// samples are already there, the record unchanged; or the raw code of the
/// decode error, the record then unchanged too.
pub open spec fn spec_unpack(m: RecordModel) -> std::result::Result<RecordModel, i32> {
    match m.samples {
        Some(_) => Ok(m),
        None => match spec_decode(m.encoding as i8, m.payload, m.samplecnt as u32) {
            Ok(d) => Ok(
                RecordModel {
                    numsamples: d.count() as int,
                    datasize: d.count() * d.width(),
                    samples: Some(d),
                    ..m
                },
            ),
            Err(c) => Err(c),
        },
    }
}

impl MSRecord {
    /// Validity of a record as the parser hands it out: the declared sample
    /// count is a header word, the payload is bounded by the largest record,
    /// and the decoded state is consistent — count and byte size match the
    /// sample buffer, the decoded count never exceeds the declared count,
    /// and the byte size never exceeds eight bytes per payload byte.
    pub closed spec fn inv(&self) -> bool {
        self.payload@.len() + FIXED_HEADER_LEN <= MAXRECLEN && 0 <= self.samplecnt <= u32::MAX
            && match &self.samples {
            Some(b) => b@.count() * b@.width() <= 8 * self.payload@.len() && self.numsamples
                == b@.count() && self.datasize == b@.count() * b@.width() && self.numsamples
                <= self.samplecnt,
            None => self.numsamples == 0 && self.datasize == 0,
        }
    }

    /// Peek at the minimal prefix of a buffer to learn the total declared
    /// record length, so a caller can read exactly one record before a full
    /// parse.
    pub fn detect_record_length(buf: &[u8]) -> (r: Result<u32>)
        ensures
            match spec_detect(buf@) {
                Ok(n) => r matches Ok(v) && v as int == n,
                Err(c) => r matches Err(e) && e.spec_code() == c,
            },
    {
        proof {
            vstd::slice::axiom_spec_len(buf);
        }
        if buf.len() < 2 {
            return Err(MSError::from_raw(MS_WRONGLENGTH));
        }
        if !(buf[0] == 77 && buf[1] == 83) {
            return Err(MSError::from_raw(MS_NOTSEED));
        }
        if buf.len() < 3 {
            return Err(MSError::from_raw(MS_WRONGLENGTH));
        }
        if buf[2] != 3 {
            return Err(MSError::from_raw(MS_NOTSEED));
        }
        if buf.len() < FIXED_HEADER_LEN as usize {
            return Err(MSError::from_raw(MS_WRONGLENGTH));
        }
        let reclen: u64 = (FIXED_HEADER_LEN as u64) + (buf[33] as u64) + (read_u16_le(buf, 34)
            as u64) + (read_u32_le(buf, 36) as u64);
        if reclen > MAXRECLEN as u64 {
            return Err(MSError::from_raw(MS_OUTOFRANGE));
        }
        Ok(reclen as u32)
    }

    /// Parse a `MSRecord` from a slice of bytes; when `unpack` is set the
    /// payload is decoded eagerly. The CRC is not checked.
    pub fn parse(buf: &[u8], unpack: bool) -> (r: Result<Self>)
        ensures
            match spec_parse(buf@, unpack, false) {
                Ok(m) => r matches Ok(rec) && rec@ == m && rec.inv(),
                Err(c) => r matches Err(e) && e.spec_code() == c,
            },
    {
        Self::parse_with_options(buf, unpack, false)
    }

    /// Parse a `MSRecord` from a slice of bytes; `unpack` asks for eager
    /// payload decoding and `validate_crc` for the checksum to be verified.
    pub fn parse_with_options(buf: &[u8], unpack: bool, validate_crc: bool) -> (r: Result<Self>)
        ensures
            match spec_parse(buf@, unpack, validate_crc) {
                Ok(m) => r matches Ok(rec) && rec@ == m && rec.inv(),
                Err(c) => r matches Err(e) && e.spec_code() == c,
            },
    {
        proof {
            vstd::slice::axiom_spec_len(buf);
        }
        if buf.len() < 2 {
            return Err(MSError::from_raw(MS_WRONGLENGTH));
        }
        if !(buf[0] == 77 && buf[1] == 83) {
            return Err(MSError::from_raw(MS_NOTSEED));
        }
        if buf.len() < 3 {
            return Err(MSError::from_raw(MS_WRONGLENGTH));
        }
        if buf[2] != 3 {
            return Err(MSError::from_raw(MS_NOTSEED));
        }
        if buf.len() < FIXED_HEADER_LEN as usize {
            return Err(MSError::from_raw(MS_WRONGLENGTH));
        }
        let sidlen = buf[33] as usize;
        let extralen = read_u16_le(buf, 34);
        let datalen = read_u32_le(buf, 36);
        let reclen64: u64 = (FIXED_HEADER_LEN as u64) + (sidlen as u64) + (extralen as u64) + (
        datalen as u64);
        if reclen64 > MAXRECLEN as u64 {
            return Err(MSError::from_raw(MS_OUTOFRANGE));
        }
        if reclen64 > buf.len() as u64 {
            return Err(MSError::from_raw(MS_WRONGLENGTH));
        }
        let reclen = reclen64 as usize;
        if validate_crc {
            let zeroed = crc_input_bytes(buf, reclen);
            if crc32c_of_bytes(zeroed.as_slice()) != read_u32_le(buf, 28) {
                return Err(MSError::from_raw(MS_INVALIDCRC));
            }
        }
        let year = read_u16_le(buf, 8);
        let yday = read_u16_le(buf, 10);
        let hour = buf[12];
        let min = buf[13];
        let sec = buf[14];
        let nsec = read_u32_le(buf, 4);
        let starttime: i64 = match nanos_from_fields(year, yday, hour, min, sec, nsec) {
            Some(ns) => ns,
            None => {
                return Err(MSError::from_str("invalid record start time"));
            },
        };
        let sid = copy_range(buf, 40, 40 + sidlen);
        let payload = copy_range(buf, 40 + sidlen + extralen as usize, reclen);
        let mut rec = MSRecord {
            sid,
            reclen: reclen64 as u32,
            pubversion: buf[32],
            starttime,
            samprate_bits: read_u64_le(buf, 16),
            samplecnt: read_u32_le(buf, 24) as i64,
            crc: read_u32_le(buf, 28),
            encoding: i8_from_byte(buf[15]),
            extralength: extralen,
            datalength: datalen,
            payload,
            numsamples: 0,
            datasize: 0,
            samples: None,
        };
        proof {
            assert(rec@ =~= spec_parse(buf@, false, validate_crc)->Ok_0);
        }
        if unpack {
            match rec.unpack_data() {
                Ok(_) => Ok(rec),
                Err(e) => Err(e),
            }
        } else {
            Ok(rec)
        }
    }

    /// Unpack data samples of the record and return the number of unpacked
    /// samples.
    ///
    /// If the data is already unpacked, the number of unpacked samples is
    /// returned, as well, and nothing is decoded again. On failure the
    /// record is left exactly as it was.
    pub fn unpack_data(&mut self) -> (r: Result<i64>)
        requires
            old(self).inv(),
        ensures
            final(self).inv(),
            match spec_unpack(old(self)@) {
                Ok(m) => r matches Ok(n) && final(self)@ == m && n == m.numsamples,
                Err(c) => r matches Err(e) && e.spec_code() == c && final(self)@ == old(self)@,
            },
    {
        match &self.samples {
            Some(_) => {
                return Ok(self.numsamples);
            },
            None => {},
        }
        let cnt: u32 = self.samplecnt as u32;
        match decode_payload(self.encoding, self.payload.as_slice(), cnt) {
            Ok(b) => {
                let n = b.len();
                let width: usize = match &b {
                    SampleBuffer::Ascii(_) => 1,
                    SampleBuffer::Integer32(_) => 4,
                    SampleBuffer::Float32(_) => 4,
                    SampleBuffer::Float64(_) => 8,
                };
                proof {
                    let e = self.encoding as i8;
                    if e == DE_STEIM1 {
                        lemma_steim_count(self.payload@, false, cnt);
                    }
                    if e == DE_STEIM2 {
                        lemma_steim_count(self.payload@, true, cnt);
                    }
                    assert(n * width <= 8 * self.payload@.len());
                }
                self.datasize = n * width;
                self.numsamples = n as i64;
                self.samples = Some(b);
                proof {
                    assert(final(self)@ =~= spec_unpack(old(self)@)->Ok_0);
                }
                Ok(self.numsamples)
            },
            Err(e) => Err(e),
        }
    }

    /// Return a lossy version of the stream identifier. When the identifier
    /// bytes are plain ASCII this is exactly the identifier, trailing NUL
    /// padding trimmed.
    pub fn sid_lossy(&self) -> (r: String)
        ensures
            spec_all_ascii(spec_trim_nul(self@.sid)) ==> r@ == spec_ascii_chars(
                spec_trim_nul(self@.sid),
            ),
    {
        lossy_trimmed_string(self.sid.as_slice())
    }

    /// The four identifier codes of the record, split out of the source
    /// identifier.
    fn nslc(&self) -> (r: Result<NSLC>)
        ensures
            ({
                let body = spec_sid_body(spec_trim_nul(self@.sid));
                let ps = spec_unders(body);
                match r {
                    Ok(nslc) => ps.len() == 3 && (spec_all_ascii(body) ==> nslc.net@
                        == spec_ascii_chars(body.subrange(0, ps[0])) && nslc.sta@
                        == spec_ascii_chars(body.subrange(ps[0] + 1, ps[1])) && nslc.loc@
                        == spec_ascii_chars(body.subrange(ps[1] + 1, ps[2])) && nslc.cha@
                        == spec_ascii_chars(body.subrange(ps[2] + 1, body.len() as int))),
                    Err(e) => ps.len() != 3 && e.spec_code() == MS_GENERROR,
                }
            }),
    {
        let clean = trim_nul(self.sid.as_slice());
        NSLC::from_clean_bytes(clean.as_slice())
    }

    /// Return the network code identifier of the record.
    pub fn network(&self) -> (r: Result<String>)
        ensures
            ({
                let body = spec_sid_body(spec_trim_nul(self@.sid));
                let ps = spec_unders(body);
                match r {
                    Ok(s) => ps.len() == 3 && (spec_all_ascii(body) ==> s@ == spec_ascii_chars(
                        body.subrange(0, ps[0]),
                    )),
                    Err(e) => ps.len() != 3 && e.spec_code() == MS_GENERROR,
                }
            }),
    {
        match self.nslc() {
            Ok(nslc) => Ok(nslc.net),
            Err(e) => Err(e),
        }
    }

    /// Return the station code identifier of the record.
    pub fn station(&self) -> (r: Result<String>)
        ensures
            ({
                let body = spec_sid_body(spec_trim_nul(self@.sid));
                let ps = spec_unders(body);
                match r {
                    Ok(s) => ps.len() == 3 && (spec_all_ascii(body) ==> s@ == spec_ascii_chars(
                        body.subrange(ps[0] + 1, ps[1]),
                    )),
                    Err(e) => ps.len() != 3 && e.spec_code() == MS_GENERROR,
                }
            }),
    {
        match self.nslc() {
            Ok(nslc) => Ok(nslc.sta),
            Err(e) => Err(e),
        }
    }

    /// Return the location code identifier of the record.
    pub fn location(&self) -> (r: Result<String>)
        ensures
            ({
                let body = spec_sid_body(spec_trim_nul(self@.sid));
                let ps = spec_unders(body);
                match r {
                    Ok(s) => ps.len() == 3 && (spec_all_ascii(body) ==> s@ == spec_ascii_chars(
                        body.subrange(ps[1] + 1, ps[2]),
                    )),
                    Err(e) => ps.len() != 3 && e.spec_code() == MS_GENERROR,
                }
            }),
    {
        match self.nslc() {
            Ok(nslc) => Ok(nslc.loc),
            Err(e) => Err(e),
        }
    }

    /// Return the channel code identifier of the record.
    pub fn channel(&self) -> (r: Result<String>)
        ensures
            ({
                let body = spec_sid_body(spec_trim_nul(self@.sid));
                let ps = spec_unders(body);
                match r {
                    Ok(s) => ps.len() == 3 && (spec_all_ascii(body) ==> s@ == spec_ascii_chars(
                        body.subrange(ps[2] + 1, body.len() as int),
                    )),
                    Err(e) => ps.len() != 3 && e.spec_code() == MS_GENERROR,
                }
            }),
    {
        match self.nslc() {
            Ok(nslc) => Ok(nslc.cha),
            Err(e) => Err(e),
        }
    }

    /// Return the start time of the record as calendar fields.
    pub fn start_time(&self) -> (r: Result<DecodedTime>)
        ensures
            r matches Ok(t) && t.valid() && t.nanos() == self@.starttime,
    {
        nstime_to_time(self.starttime)
    }

    /// Return the start time of the record as nanoseconds since the epoch.
    pub fn start_time_ns(&self) -> (r: i64)
        ensures
            r as int == self@.starttime,
    {
        self.starttime
    }

    /// Return the data encoding format of the record.
    pub fn encoding(&self) -> (r: Result<MSDataEncoding>)
        ensures
            match r {
                Ok(e) => spec_encoding_of(self@.encoding as i8) == Some(e),
                Err(e) => spec_encoding_of(self@.encoding as i8) is None && e.spec_code()
                    == MS_UNKNOWNFORMAT,
            },
    {
        MSDataEncoding::try_from_char(self.encoding)
    }

    /// Return the record publication version.
    pub fn pub_version(&self) -> (r: u8)
        ensures
            r as int == self@.pubversion,
    {
        self.pubversion
    }

    /// Return the number of data samples as indicated by the raw record.
    pub fn sample_cnt(&self) -> (r: i64)
        ensures
            r as int == self@.samplecnt,
    {
        self.samplecnt
    }

    /// Return the CRC of the record, as stored in its header.
    pub fn crc(&self) -> (r: u32)
        ensures
            r as int == self@.crc,
    {
        self.crc
    }

    /// Return the length of the extra headers in bytes.
    pub fn extra_length(&self) -> (r: u16)
        ensures
            r as int == self@.extralength,
    {
        self.extralength
    }

    /// Return the length of the data payload in bytes.
    pub fn data_length(&self) -> (r: u32)
        ensures
            r as int == self@.datalength,
    {
        self.datalength
    }

    /// Return the total record length in bytes.
    pub fn record_length(&self) -> (r: u32)
        ensures
            r as int == self@.reclen,
    {
        self.reclen
    }

    /// Return the IEEE-754 bit pattern of the record's sample rate field.
    /// A negative value encodes a sample period in seconds instead of a
    /// rate in Hz; turning either into a rate is floating-point work that
    /// belongs to the caller.
    pub fn sample_rate_bits(&self) -> (r: u64)
        ensures
            r as int == self@.samprate_bits,
    {
        self.samprate_bits
    }

    /// Return the data samples of the record.
    ///
    /// Note that the data samples are unpacked, if required. `None` is
    /// returned if unpacking the data samples failed.
    pub fn data_samples(&mut self) -> (r: Option<&SampleBuffer>)
        requires
            old(self).inv(),
        ensures
            final(self).inv(),
            match spec_unpack(old(self)@) {
                Ok(m) => final(self)@ == m && (r matches Some(b) && Some(b@) == m.samples),
                Err(_) => final(self)@ == old(self)@ && r is None,
            },
    {
        if self.unpack_data().is_err() {
            return None;
        }
        match &self.samples {
            Some(b) => Some(b),
            None => None,
        }
    }

    /// Return the size of the (unpacked) data samples in bytes.
    pub fn data_size(&self) -> (r: usize)
        ensures
            r as int == self@.datasize,
    {
        self.datasize
    }

    /// Return the number of (unpacked) data samples of the record.
    pub fn num_samples(&self) -> (r: i64)
        ensures
            r as int == self@.numsamples,
    {
        self.numsamples
    }

    /// Return the record sample type, known once the payload is decoded.
    pub fn sample_type(&self) -> (r: Result<MSSampleType>)
        ensures
            match self@.samples {
                Some(d) => r matches Ok(t) && t == d.sample_type(),
                None => r matches Err(e) && e.spec_code() == MS_GENERROR,
            },
    {
        match &self.samples {
            Some(b) => Ok(b.sample_type()),
            None => Err(MSError::from_str("data samples not unpacked")),
        }
    }
}


/// Parsing reproduces every header field exactly: each field of the parsed
/// record equals the value read at its fixed offset in the raw bytes, the
/// identifier is the raw identifier bytes, the payload is the declared
/// payload region, and the start time is the nanosecond count of the one
/// valid calendar timestamp the header fields name (one, by
/// `util::lemma_calendar_unique`) — so the accessors, whose contracts state
/// these same values, hand every header field back.
pub proof fn lemma_parse_roundtrip(buf: Seq<u8>, unpack: bool, validate: bool)
    requires
        spec_parse(buf, unpack, validate) is Ok,
    ensures
        ({
            let m = spec_parse(buf, unpack, validate)->Ok_0;
            let sidlen = buf[33] as int;
            let extralen = spec_u16_le(buf, 34) as int;
            let t = DecodedTime {
                year: spec_u16_le(buf, 8),
                yday: spec_u16_le(buf, 10),
                hour: buf[12],
                min: buf[13],
                sec: buf[14],
                nsec: spec_u32_le(buf, 4),
            };
            &&& m.sid == buf.subrange(40, 40 + sidlen)
            &&& m.reclen == 40 + sidlen + extralen + spec_u32_le(buf, 36) as int
            &&& m.pubversion == buf[32] as int
            &&& t.valid() && m.starttime == t.nanos()
            &&& m.samprate_bits == spec_u64_le(buf, 16) as int
            &&& m.samplecnt == spec_u32_le(buf, 24) as int
            &&& m.crc == spec_u32_le(buf, 28) as int
            &&& m.encoding == spec_sext(buf[15] as int, 0x80, 0x100)
            &&& m.extralength == extralen
            &&& m.datalength == spec_u32_le(buf, 36) as int
            &&& m.payload == buf.subrange(40 + sidlen + extralen, m.reclen)
        }),
{
}

/// Unpacking is idempotent: once a record holds decoded samples, unpacking
/// again yields the record unchanged and the same sample count, and decodes
/// nothing; the payload plays no part in the second call.
pub proof fn lemma_unpack_idempotent(m: RecordModel)
    requires
        spec_unpack(m) is Ok,
    ensures
        spec_unpack(spec_unpack(m)->Ok_0) == spec_unpack(m),
        spec_unpack(m)->Ok_0.samples is Some,
{
}

/// The minimal-prefix peek and the full parse agree: whenever a buffer
/// parses, the peek succeeds on it and names exactly the parsed record's
/// length, so a reader can size its read by the peek alone.
pub proof fn lemma_detect_agrees_with_parse(buf: Seq<u8>, unpack: bool, validate: bool)
    requires
        spec_parse(buf, unpack, validate) is Ok,
    ensures
        spec_detect(buf) is Ok,
        spec_detect(buf)->Ok_0 == spec_parse(buf, unpack, validate)->Ok_0.reclen,
{
}

/// A buffer whose first bytes do not form the format marker — the two
/// marker bytes, or the format version after them — fails as not SEED,
/// whatever the remaining content.
pub proof fn lemma_not_seed(buf: Seq<u8>, unpack: bool, validate: bool)
    requires
        buf.len() >= 2,
        !(buf[0] == 77 && buf[1] == 83) || (buf.len() >= 3 && buf[2] != 3),
    ensures
        spec_parse(buf, unpack, validate) == Err::<RecordModel, i32>(MS_NOTSEED),
{
}

} // verus!
