//! Steim1 / Steim2 decompression.
//!
//! A Steim payload is an ordered run of 64-byte frames, each made of sixteen
//! big-endian 32-bit words. Word 0 of a frame is the control word: fifteen
//! 2-bit codes, one per following word, saying how many signed differences
//! are packed into that word and how wide they are. Words 1 and 2 of the
//! first frame carry the first and last sample of the whole sequence instead
//! of differences. Decoding collects the differences in order and integrates
//! them: the first emitted sample is the stored first sample, and every
//! further sample is the previous one plus the next difference, wrapping in
//! 32 bits.

use vstd::prelude::*;

verus! {

use crate::decode::{read_u32_be, spec_sext, spec_u32_be};
use crate::error::{MS_STBADCOMPFLAG, MS_WRONGLENGTH};
use crate::MSError;
use crate::Result;

/// Number of whole 64-byte frames in a payload; trailing bytes are ignored.
pub open spec fn spec_nframes(p: Seq<u8>) -> int {
    p.len() as int / 64
}

/// Number of words that may carry differences: fifteen per frame, minus the
/// two words of frame 0 that hold the first and last sample.
pub open spec fn spec_nwords(p: Seq<u8>) -> int {
    spec_nframes(p) * 15 - 2
}

/// The frame that the `k`-th difference-carrying word lies in.
pub open spec fn spec_frame_of(k: int) -> int {
    if k < 13 {
        0
    } else {
        1 + (k - 13) / 15
    }
}

/// The word slot (1..=15) inside its frame of the `k`-th difference-carrying
/// word. Frame 0 starts at slot 3, every later frame at slot 1.
pub open spec fn spec_slot_of(k: int) -> int {
    if k < 13 {
        k + 3
    } else {
        1 + (k - 13) % 15
    }
}

/// The control word of frame `f`.
pub open spec fn spec_ctrl(p: Seq<u8>, f: int) -> u32 {
    spec_u32_be(p, 64 * f)
}

/// Word `w` (0..=15) of frame `f`.
pub open spec fn spec_word(p: Seq<u8>, f: int, w: int) -> u32 {
    spec_u32_be(p, 64 * f + 4 * w)
}

/// 4 to the power `k`.
pub open spec fn spec_p4(k: nat) -> int
    decreases k,
{
    if k == 0 {
        1
    } else {
        4 * spec_p4((k - 1) as nat)
    }
}

/// The 2-bit control code of word slot `w` within the control word: codes are
/// stored high to low, so slot `w` sits `2 * (15 - w)` bits up.
pub open spec fn spec_nib(ctrl: u32, w: int) -> int {
    (ctrl as int) / spec_p4((15 - w) as nat) % 4
}

/// Sign extension into an `i32`: reads `v` (with `0 <= v < full`) as a signed
/// field of width `log2(full)` bits, `half` being `full / 2`.
pub open spec fn spec_sx(v: int, half: int, full: int) -> i32 {
    spec_sext(v, half, full) as i32
}

/// The signed differences packed into one word under control code `nib`;
/// `None` when the code (or a Steim2 decode nibble) is invalid.
///
/// Steim1 packs 4 bytes, 2 halfwords or 1 full word. Steim2 keeps the
/// 4-byte form and otherwise stores a 2-bit decode nibble in the top bits,
/// selecting one 30-bit, two 15-bit, three 10-bit, five 6-bit, six 5-bit or
/// seven 4-bit differences.
pub open spec fn spec_word_diffs(nib: int, w: u32, two: bool) -> Option<Seq<i32>> {
    let x = w as int;
    if nib == 0 {
        Some(Seq::empty())
    } else if nib == 1 {
        Some(
            seq![
                spec_sx(x / 0x100_0000 % 0x100, 0x80, 0x100),
                spec_sx(x / 0x1_0000 % 0x100, 0x80, 0x100),
                spec_sx(x / 0x100 % 0x100, 0x80, 0x100),
                spec_sx(x % 0x100, 0x80, 0x100),
            ],
        )
    } else if nib == 2 {
        if !two {
            Some(
                seq![
                    spec_sx(x / 0x1_0000, 0x8000, 0x1_0000),
                    spec_sx(x % 0x1_0000, 0x8000, 0x1_0000),
                ],
            )
        } else {
            let dnib = x / 0x4000_0000;
            if dnib == 1 {
                Some(seq![spec_sx(x % 0x4000_0000, 0x2000_0000, 0x4000_0000)])
            } else if dnib == 2 {
                Some(
                    seq![
                        spec_sx(x / 0x8000 % 0x8000, 0x4000, 0x8000),
                        spec_sx(x % 0x8000, 0x4000, 0x8000),
                    ],
                )
            } else if dnib == 3 {
                Some(
                    seq![
                        spec_sx(x / 0x10_0000 % 0x400, 0x200, 0x400),
                        spec_sx(x / 0x400 % 0x400, 0x200, 0x400),
                        spec_sx(x % 0x400, 0x200, 0x400),
                    ],
                )
            } else {
                None
            }
        }
    } else {
        if !two {
            Some(seq![spec_sx(x, 0x8000_0000, 0x1_0000_0000)])
        } else {
            let dnib = x / 0x4000_0000;
            if dnib == 0 {
                Some(
                    seq![
                        spec_sx(x / 0x100_0000 % 0x40, 0x20, 0x40),
                        spec_sx(x / 0x4_0000 % 0x40, 0x20, 0x40),
                        spec_sx(x / 0x1000 % 0x40, 0x20, 0x40),
                        spec_sx(x / 0x40 % 0x40, 0x20, 0x40),
                        spec_sx(x % 0x40, 0x20, 0x40),
                    ],
                )
            } else if dnib == 1 {
                Some(
                    seq![
                        spec_sx(x / 0x200_0000 % 0x20, 0x10, 0x20),
                        spec_sx(x / 0x10_0000 % 0x20, 0x10, 0x20),
                        spec_sx(x / 0x8000 % 0x20, 0x10, 0x20),
                        spec_sx(x / 0x400 % 0x20, 0x10, 0x20),
                        spec_sx(x / 0x20 % 0x20, 0x10, 0x20),
                        spec_sx(x % 0x20, 0x10, 0x20),
                    ],
                )
            } else if dnib == 2 {
                Some(
                    seq![
                        spec_sx(x / 0x100_0000 % 0x10, 0x8, 0x10),
                        spec_sx(x / 0x10_0000 % 0x10, 0x8, 0x10),
                        spec_sx(x / 0x1_0000 % 0x10, 0x8, 0x10),
                        spec_sx(x / 0x1000 % 0x10, 0x8, 0x10),
                        spec_sx(x / 0x100 % 0x10, 0x8, 0x10),
                        spec_sx(x / 0x10 % 0x10, 0x8, 0x10),
                        spec_sx(x % 0x10, 0x8, 0x10),
                    ],
                )
            } else {
                None
            }
        }
    }
}

/// The differences packed into the `k`-th difference-carrying word.
pub open spec fn spec_diffs_at(p: Seq<u8>, k: int, two: bool) -> Option<Seq<i32>> {
    spec_word_diffs(
        spec_nib(spec_ctrl(p, spec_frame_of(k)), spec_slot_of(k)),
        spec_word(p, spec_frame_of(k), spec_slot_of(k)),
        two,
    )
}

/// Outcome of walking the difference-carrying words in order.
pub enum ScanOut {
    /// An invalid control code or decode nibble was met before enough
    /// differences were collected.
    BadFlag,
    /// The words ran out before enough differences were collected.
    Short,
    /// The first `need` differences, in order.
    Diffs(Seq<i32>),
}

/// Walk the difference-carrying words from index `k` on, with the
/// differences `acc` already collected, until `need` differences are
/// available, the words run out, or an invalid code is met. Words past the
/// one that completes the count are never examined.
pub open spec fn spec_scan(p: Seq<u8>, two: bool, k: int, acc: Seq<i32>, need: int) -> ScanOut
    decreases spec_nwords(p) - k,
    when k <= spec_nwords(p)
{
    if acc.len() >= need {
        ScanOut::Diffs(acc.take(need))
    } else if k >= spec_nwords(p) {
        ScanOut::Short
    } else {
        match spec_diffs_at(p, k, two) {
            None => ScanOut::BadFlag,
            Some(d) => spec_scan(p, two, k + 1, acc + d, need),
        }
    }
}

/// The 32-bit two's-complement wrap of the sum of two 32-bit values.
pub open spec fn spec_wrap32(x: int) -> int {
    if x > 0x7fff_ffff {
        x - 0x1_0000_0000
    } else if x < -0x8000_0000 {
        x + 0x1_0000_0000
    } else {
        x
    }
}

/// Sample `i` of the integrated sequence: sample 0 is the stored first
/// sample `x0` (difference 0 is the carry-over from a preceding record and
/// is ignored), and sample `i` adds difference `i` to sample `i - 1`.
pub open spec fn spec_sample_at(x0: i32, d: Seq<i32>, i: int) -> int
    decreases i,
{
    if i <= 0 {
        x0 as int
    } else {
        spec_wrap32(spec_sample_at(x0, d, i - 1) + d[i])
    }
}

/// The whole integrated sample sequence, one sample per difference.
pub open spec fn spec_integrate(x0: i32, d: Seq<i32>) -> Seq<i32> {
    Seq::new(d.len(), |i: int| spec_sample_at(x0, d, i) as i32)
}

/// What decoding a Steim payload yields: the integrated samples, or the raw
/// code of the error. A count of zero asks for nothing and gets an empty
/// sequence; otherwise at least one whole frame must be present to carry the
/// first sample.
pub open spec fn spec_steim(p: Seq<u8>, two: bool, cnt: u32) -> std::result::Result<Seq<i32>, i32> {
    if cnt == 0 {
        Ok(Seq::empty())
    } else if p.len() < 64 {
        Err(MS_WRONGLENGTH)
    } else {
        let x0 = spec_sx(spec_word(p, 0, 1) as int, 0x8000_0000, 0x1_0000_0000);
        match spec_scan(p, two, 0, Seq::empty(), cnt as int) {
            ScanOut::BadFlag => Err(MS_STBADCOMPFLAG),
            ScanOut::Short => Err(MS_WRONGLENGTH),
            ScanOut::Diffs(d) => Ok(spec_integrate(x0, d)),
        }
    }
}

/// No word carries more than seven differences.
proof fn lemma_word_diffs_len(nib: int, w: u32, two: bool)
    ensures
        spec_word_diffs(nib, w, two) matches Some(d) ==> d.len() <= 7,
{
}

/// A scan that completes hands back exactly the count asked for, and found
/// every difference among the words it walked, so that count is bounded by
/// seven per word.
proof fn lemma_scan_need_bound(p: Seq<u8>, two: bool, k: int, acc: Seq<i32>, need: int)
    requires
        0 <= need,
        0 <= k <= spec_nwords(p),
        spec_scan(p, two, k, acc, need) is Diffs,
    ensures
        need <= acc.len() + 7 * (spec_nwords(p) - k),
        spec_scan(p, two, k, acc, need)->Diffs_0.len() == need,
    decreases spec_nwords(p) - k,
{
    if acc.len() >= need {
    } else {
        match spec_diffs_at(p, k, two) {
            None => {},
            Some(d) => {
                lemma_word_diffs_len(
                    spec_nib(spec_ctrl(p, spec_frame_of(k)), spec_slot_of(k)),
                    spec_word(p, spec_frame_of(k), spec_slot_of(k)),
                    two,
                );
                lemma_scan_need_bound(p, two, k + 1, acc + d, need);
            },
        }
    }
}

/// A successful Steim decode yields exactly the asked-for count, and that
/// count is small against the payload: at most seven differences per word
/// and fifteen words per 64-byte frame.
pub proof fn lemma_steim_count(p: Seq<u8>, two: bool, cnt: u32)
    requires
        spec_steim(p, two, cnt) is Ok,
    ensures
        spec_steim(p, two, cnt)->Ok_0.len() == cnt,
        4 * (cnt as int) <= 8 * p.len(),
{
    if cnt != 0 {
        lemma_scan_need_bound(p, two, 0, Seq::empty(), cnt as int);
        assert(64 * spec_nframes(p) <= p.len()) by {
            vstd::arithmetic::div_mod::lemma_fundamental_div_mod(p.len() as int, 64);
        }
    }
}

/// Walking one more word carries the scan forward by the differences that
/// word packs.
proof fn lemma_scan_step(p: Seq<u8>, two: bool, k: int, acc: Seq<i32>, need: int, d: Seq<i32>)
    requires
        0 <= k < spec_nwords(p),
        acc.len() < need,
        spec_diffs_at(p, k, two) == Some(d),
    ensures
        spec_scan(p, two, k, acc, need) == spec_scan(p, two, k + 1, acc + d, need),
{
}

/// Sign-extend `v`, an unsigned field strictly below `full`, into an `i32`;
/// `half` is `full / 2`.
fn sext_exec(v: u32, half: u32, full: u64) -> (r: i32)
    requires
        (v as int) < full,
        2 * (half as int) == full,
        full <= 0x1_0000_0000,
    ensures
        r as int == spec_sext(v as int, half as int, full as int),
        r == spec_sx(v as int, half as int, full as int),
{
    if v >= half {
        ((v as i64) - (full as i64)) as i32
    } else {
        v as i32
    }
}

/// The differences packed into one word, or `None` on an invalid code.
fn unpack_word(w: u32, nib: u32, two: bool) -> (r: Option<Vec<i32>>)
    ensures
        match spec_word_diffs(nib as int, w, two) {
            Some(d) => r matches Some(v) && v@ == d,
            None => r is None,
        },
{
    let mut v: Vec<i32> = Vec::new();
    if nib == 0 {
        proof {
            assert(v@ =~= spec_word_diffs(nib as int, w, two)->Some_0);
        }
        Some(v)
    } else if nib == 1 {
        v.push(sext_exec(w / 0x100_0000 % 0x100, 0x80, 0x100));
        v.push(sext_exec(w / 0x1_0000 % 0x100, 0x80, 0x100));
        v.push(sext_exec(w / 0x100 % 0x100, 0x80, 0x100));
        v.push(sext_exec(w % 0x100, 0x80, 0x100));
        proof {
            assert(v@ =~= spec_word_diffs(nib as int, w, two)->Some_0);
        }
        Some(v)
    } else if nib == 2 {
        if !two {
            v.push(sext_exec(w / 0x1_0000, 0x8000, 0x1_0000));
            v.push(sext_exec(w % 0x1_0000, 0x8000, 0x1_0000));
            proof {
                assert(v@ =~= spec_word_diffs(nib as int, w, two)->Some_0);
            }
            Some(v)
        } else {
            let dnib = w / 0x4000_0000;
            if dnib == 1 {
                v.push(sext_exec(w % 0x4000_0000, 0x2000_0000, 0x4000_0000));
            } else if dnib == 2 {
                v.push(sext_exec(w / 0x8000 % 0x8000, 0x4000, 0x8000));
                v.push(sext_exec(w % 0x8000, 0x4000, 0x8000));
            } else if dnib == 3 {
                v.push(sext_exec(w / 0x10_0000 % 0x400, 0x200, 0x400));
                v.push(sext_exec(w / 0x400 % 0x400, 0x200, 0x400));
                v.push(sext_exec(w % 0x400, 0x200, 0x400));
            } else {
                return None;
            }
            proof {
                assert(v@ =~= spec_word_diffs(nib as int, w, two)->Some_0);
            }
            Some(v)
        }
    } else {
        if !two {
            v.push(sext_exec(w, 0x8000_0000, 0x1_0000_0000));
            proof {
                assert(v@ =~= spec_word_diffs(nib as int, w, two)->Some_0);
            }
            Some(v)
        } else {
            let dnib = w / 0x4000_0000;
            if dnib == 0 {
                v.push(sext_exec(w / 0x100_0000 % 0x40, 0x20, 0x40));
                v.push(sext_exec(w / 0x4_0000 % 0x40, 0x20, 0x40));
                v.push(sext_exec(w / 0x1000 % 0x40, 0x20, 0x40));
                v.push(sext_exec(w / 0x40 % 0x40, 0x20, 0x40));
                v.push(sext_exec(w % 0x40, 0x20, 0x40));
            } else if dnib == 1 {
                v.push(sext_exec(w / 0x200_0000 % 0x20, 0x10, 0x20));
                v.push(sext_exec(w / 0x10_0000 % 0x20, 0x10, 0x20));
                v.push(sext_exec(w / 0x8000 % 0x20, 0x10, 0x20));
                v.push(sext_exec(w / 0x400 % 0x20, 0x10, 0x20));
                v.push(sext_exec(w / 0x20 % 0x20, 0x10, 0x20));
                v.push(sext_exec(w % 0x20, 0x10, 0x20));
            } else if dnib == 2 {
                v.push(sext_exec(w / 0x100_0000 % 0x10, 0x8, 0x10));
                v.push(sext_exec(w / 0x10_0000 % 0x10, 0x8, 0x10));
                v.push(sext_exec(w / 0x1_0000 % 0x10, 0x8, 0x10));
                v.push(sext_exec(w / 0x1000 % 0x10, 0x8, 0x10));
                v.push(sext_exec(w / 0x100 % 0x10, 0x8, 0x10));
                v.push(sext_exec(w / 0x10 % 0x10, 0x8, 0x10));
                v.push(sext_exec(w % 0x10, 0x8, 0x10));
            } else {
                return None;
            }
            proof {
                assert(v@ =~= spec_word_diffs(nib as int, w, two)->Some_0);
            }
            Some(v)
        }
    }
}

/// The 2-bit control code of word slot `w`, read from the control word.
fn nib_of(ctrl: u32, w: usize) -> (r: u32)
    requires
        1 <= w <= 15,
    ensures
        r as int == spec_nib(ctrl, w as int),
{
    let mut d: u32 = 0x4000_0000;
    let mut j: usize = 0;
    proof {
        reveal_with_fuel(spec_p4, 16);
        assert(spec_p4(15) == 0x4000_0000);
    }
    while j < w
        invariant
            0 <= j <= w <= 15,
            d as int == spec_p4((15 - j) as nat),
        decreases w - j,
    {
        proof {
            assert(spec_p4((15 - j) as nat) == 4 * spec_p4((15 - j - 1) as nat));
        }
        d = d / 4;
        j += 1;
    }
    (ctrl / d) % 4
}

/// The 32-bit two's-complement wrap of the sum of two samples.
fn wrap_add(a: i32, b: i32) -> (r: i32)
    ensures
        r as int == spec_wrap32(a as int + b as int),
{
    let s: i64 = (a as i64) + (b as i64);
    if s > 0x7fff_ffffi64 {
        (s - 0x1_0000_0000i64) as i32
    } else if s < -0x8000_0000i64 {
        (s + 0x1_0000_0000i64) as i32
    } else {
        s as i32
    }
}

/// Decode a Steim1 (`two == false`) or Steim2 (`two == true`) payload into
/// `cnt` samples.
///
/// Differences are collected word by word until the count is reached —
/// trailing frame padding is legal and never examined — and then integrated
/// from the stored first sample. The words running out first is a
/// wrong-length error; an invalid control code or decode nibble met on the
/// way is a bad-compression-flag error.
#[verifier::loop_isolation(false)]
#[verifier::rlimit(50)]
pub fn decode_steim(p: &[u8], two: bool, cnt: u32) -> (r: Result<Vec<i32>>)
    ensures
        match spec_steim(p@, two, cnt) {
            Ok(s) => r matches Ok(v) && v@ == s,
            Err(c) => r matches Err(e) && e.spec_code() == c,
        },
{
    if cnt == 0 {
        let v: Vec<i32> = Vec::new();
        proof {
            assert(v@ =~= spec_steim(p@, two, cnt)->Ok_0);
        }
        return Ok(v);
    }
    proof {
        vstd::slice::axiom_spec_len(p);
    }
    let nframes: usize = p.len() / 64;
    if nframes == 0 {
        return Err(MSError::from_raw(MS_WRONGLENGTH));
    }
    proof {
        vstd::arithmetic::div_mod::lemma_fundamental_div_mod(p@.len() as int, 64);
    }
    let nwords: usize = nframes * 15 - 2;
    let x0 = sext_exec(read_u32_be(p, 4), 0x8000_0000, 0x1_0000_0000);

    let mut diffs: Vec<i32> = Vec::new();
    let mut k: usize = 0;
    while diffs.len() < cnt as usize && k < nwords
        invariant
            0 <= k <= nwords,
            spec_scan(p@, two, 0, Seq::empty(), cnt as int) == spec_scan(
                p@,
                two,
                k as int,
                diffs@,
                cnt as int,
            ),
        decreases nwords - k,
    {
        let f: usize;
        let w: usize;
        if k < 13 {
            f = 0;
            w = k + 3;
        } else {
            f = 1 + (k - 13) / 15;
            w = 1 + (k - 13) % 15;
        }
        proof {
            assert(f == spec_frame_of(k as int));
            assert(w == spec_slot_of(k as int));
            assert(f < nframes) by {
                if k >= 13 {
                    vstd::arithmetic::div_mod::lemma_fundamental_div_mod(k - 13, 15);
                }
            }
            assert(64 * f + 64 <= p@.len());
        }
        let ctrl = read_u32_be(p, 64 * f);
        let nib = nib_of(ctrl, w);
        let word = read_u32_be(p, 64 * f + 4 * w);
        proof {
            assert(ctrl == spec_ctrl(p@, f as int));
            assert(word == spec_word(p@, f as int, w as int));
        }
        match unpack_word(word, nib, two) {
            None => {
                proof {
                    assert(spec_diffs_at(p@, k as int, two) is None);
                    assert(spec_scan(p@, two, k as int, diffs@, cnt as int)
                        == ScanOut::BadFlag);
                }
                return Err(MSError::from_raw(MS_STBADCOMPFLAG));
            },
            Some(mut d) => {
                let ghost gd = d@;
                let ghost old_diffs = diffs@;
                diffs.append(&mut d);
                proof {
                    assert(spec_diffs_at(p@, k as int, two) == Some(gd));
                    lemma_scan_step(p@, two, k as int, old_diffs, cnt as int, gd);
                }
            },
        }
        k += 1;
    }
    if diffs.len() < cnt as usize {
        // The words ran out before the count was reached.
        proof {
            assert(spec_scan(p@, two, k as int, diffs@, cnt as int) == ScanOut::Short);
        }
        return Err(MSError::from_raw(MS_WRONGLENGTH));
    }
    // Enough differences are in hand; integrate the first `cnt` of them.
    let ghost dtake = diffs@.take(cnt as int);
    proof {
        assert(spec_scan(p@, two, 0, Seq::empty(), cnt as int) == ScanOut::Diffs(dtake));
    }
    let n = cnt as usize;
    let mut out: Vec<i32> = Vec::new();
    let mut prev: i32 = x0;
    let mut i: usize = 0;
    while i < n
        invariant
            0 <= i <= n,
            out@.len() == i,
            i == 0 ==> prev == x0,
            i > 0 ==> prev as int == spec_sample_at(x0, dtake, i - 1),
            forall|j: int| 0 <= j < i ==> out@[j] as int == spec_sample_at(x0, dtake, j),
        decreases n - i,
    {
        let cur: i32;
        if i == 0 {
            cur = x0;
        } else {
            cur = wrap_add(prev, diffs[i]);
            proof {
                assert(dtake[i as int] == diffs@[i as int]);
            }
        }
        out.push(cur);
        prev = cur;
        i += 1;
    }
    proof {
        assert(out@ =~= spec_integrate(x0, dtake));
    }
    Ok(out)
}

} // verus!
