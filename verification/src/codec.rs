//! The custom decompression codec: a byte-stream decoder with five block
//! types (raw copy, byte-run, word-run, incrementing sequence, back-reference
//! copy), terminated by a sentinel byte.
//!
//! A control byte whose top 3 bits are not all set carries the block type in
//! those bits and the run length (minus one) in the low 5; otherwise a second
//! byte extends the length to 11 bits and the type moves to bits 2-4. The
//! back-reference block names a 16-bit offset into the bytes already decoded,
//! in an order the call site selects (big-endian for map planes, little-endian
//! everywhere else), and may overlap the bytes it is itself producing.

use vstd::prelude::*;

use crate::addr::PcAddr;
use crate::error::ImportError;
use crate::rom::Rom;

verus! {

/// The bytes a back-reference block emits: the already-decoded region from
/// `o` on, repeated cyclically for `n` bytes. The cyclic reading is exactly
/// the behaviour of copying one byte at a time from a region that may overlap
/// the bytes being appended.
pub open spec fn spec_backref_bytes(out: Seq<u8>, o: int, n: int) -> Seq<u8> {
    Seq::new(n as nat, |k: int| out[o + k % (out.len() - o)])
}

/// A back-reference block copying from offset `o` for length `n` equals, byte
/// for byte, the bytes at `[o, o + n)` of the combined output, including the
/// overlapping case where `o + n` reaches past the bytes already decoded at
/// the start of the copy.
pub proof fn lemma_backref_matches_earlier_output(out: Seq<u8>, o: int, n: int)
    requires
        0 <= o < out.len(),
        0 <= n,
    ensures
        (out + spec_backref_bytes(out, o, n)).len() == out.len() + n,
        forall|k: int|
            0 <= k < n ==> (out + spec_backref_bytes(out, o, n))[out.len() + k] == #[trigger] (out
                + spec_backref_bytes(out, o, n))[o + k],
{
    let r = out + spec_backref_bytes(out, o, n);
    let per = out.len() - o;
    assert forall|k: int| 0 <= k < n implies r[out.len() + k] == #[trigger] r[o + k] by {
        assert(r[out.len() + k] == out[o + k % per]);
        if o + k < out.len() {
            vstd::arithmetic::div_mod::lemma_small_mod(k as nat, per as nat);
            assert(r[o + k] == out[o + k]);
        } else {
            assert(r[o + k] == out[o + (o + k - out.len()) % per]);
            vstd::arithmetic::div_mod::lemma_mod_sub_multiples_vanish(k, per);
        }
    }
}

/// The bytes one decoded block appends, or the error it stops with, plus the
/// stream position after its payload. `t` is the block type, `s` the run
/// length, `p` the position of the payload, `out` everything decoded so far.
pub open spec fn spec_block(
    data: Seq<u8>,
    p: int,
    be: bool,
    out: Seq<u8>,
    t: int,
    s: int,
) -> Result<(Seq<u8>, int), ImportError> {
    if t == 0 {
        if p + s <= data.len() {
            Ok((out + data.subrange(p, p + s), p + s))
        } else {
            Err(ImportError::OutOfBounds)
        }
    } else if t == 1 {
        if p < data.len() {
            Ok((out + Seq::new(s as nat, |k: int| data[p]), p + 1))
        } else {
            Err(ImportError::OutOfBounds)
        }
    } else if t == 2 {
        if p + 1 < data.len() {
            Ok(
                (
                    out + Seq::new(
                        s as nat,
                        |k: int|
                            if k % 2 == 0 {
                                data[p]
                            } else {
                                data[p + 1]
                            },
                    ),
                    p + 2,
                ),
            )
        } else {
            Err(ImportError::OutOfBounds)
        }
    } else if t == 3 {
        if p < data.len() {
            Ok((out + Seq::new(s as nat, |k: int| ((data[p] + k) % 256) as u8), p + 1))
        } else {
            Err(ImportError::OutOfBounds)
        }
    } else if t == 4 {
        if p + 1 < data.len() {
            let o = if be {
                data[p] * 0x100 + data[p + 1]
            } else {
                data[p] + data[p + 1] * 0x100
            };
            if o < out.len() {
                Ok((out + spec_backref_bytes(out, o as int, s), p + 2))
            } else {
                Err(ImportError::BadBackReference)
            }
        } else {
            Err(ImportError::OutOfBounds)
        }
    } else {
        Err(ImportError::BadBlockType)
    }
}

/// Everything the stream at `addr` decodes to, given that `out` was decoded
/// already, or the error that stops it. Every block consumes at least one
/// byte of the stream, so the recursion is measured by the bytes left.
pub open spec fn spec_decompress_from(data: Seq<u8>, addr: int, be: bool, out: Seq<u8>) -> Result<
    Seq<u8>,
    ImportError,
>
    decreases data.len() - addr,
{
    if addr < 0 || addr >= data.len() {
        Err(ImportError::OutOfBounds)
    } else if data[addr] == 0xFF {
        Ok(out)
    } else {
        let byte = data[addr];
        let step = if byte / 32 != 7 {
            spec_block(data, addr + 1, be, out, byte as int / 32, byte as int % 32 + 1)
        } else if addr + 1 < data.len() {
            spec_block(
                data,
                addr + 2,
                be,
                out,
                (byte as int / 4) % 8,
                (byte as int % 4) * 256 + data[addr + 1] + 1,
            )
        } else {
            Err(ImportError::OutOfBounds)
        };
        match step {
            Ok((out2, p2)) => spec_decompress_from(data, p2, be, out2),
            Err(e) => Err(e),
        }
    }
}

/// Everything the compressed stream starting at `addr` decodes to, or the
/// error that stops it.
pub open spec fn spec_decompress(data: Seq<u8>, addr: int, be: bool) -> Result<
    Seq<u8>,
    ImportError,
> {
    spec_decompress_from(data, addr, be, Seq::empty())
}

/// Runs one decoded block: appends its bytes to `out` and returns the stream
/// position after its payload, or the error the block stops with (leaving
/// `out` unchanged).
#[verifier::loop_isolation(false)]
#[verifier::rlimit(60)]
fn run_block(data: &Vec<u8>, out: &mut Vec<u8>, q: usize, t: u8, s: usize, be: bool) -> (r: Result<
    usize,
    ImportError,
>)
    requires
        q <= data.len(),
    ensures
        (match spec_block(data@, q as int, be, old(out)@, t as int, s as int) {
            Ok(sp) => r matches Ok(p2) && final(out)@ == sp.0 && p2 as int == sp.1,
            Err(e) => r == Err::<usize, ImportError>(e) && final(out)@ == old(out)@,
        }),
{
    let ghost out0: Seq<u8> = out@;
    if t == 0 {
        // Raw block: copy `s` bytes of the stream as they stand.
        if s > data.len() - q {
            return Err(ImportError::OutOfBounds);
        }
        for k in 0..s
            invariant
                out@ == out0 + data@.subrange(q as int, q + k),
        {
            out.push(data[q + k]);
            assert(out@ =~= out0 + data@.subrange(q as int, q + k + 1));
        }
        Ok(q + s)
    } else if t == 1 {
        // Byte-level run: repeat one byte `s` times.
        if q >= data.len() {
            return Err(ImportError::OutOfBounds);
        }
        let b = data[q];
        for k in 0..s
            invariant
                out@ == out0 + Seq::new(k as nat, |i: int| b),
        {
            out.push(b);
            assert(out@ =~= out0 + Seq::new((k + 1) as nat, |i: int| b));
        }
        Ok(q + 1)
    } else if t == 2 {
        // Word-level run: repeat a byte pair, `s` bytes in all.
        if data.len() - q < 2 {
            return Err(ImportError::OutOfBounds);
        }
        let b0 = data[q];
        let b1 = data[q + 1];
        let ghost word = Seq::new(
            s as nat,
            |i: int|
                if i % 2 == 0 {
                    b0
                } else {
                    b1
                },
        );
        for k in 0..s
            invariant
                out@ == out0 + word.subrange(0, k as int),
        {
            if k % 2 == 0 {
                out.push(b0);
            } else {
                out.push(b1);
            }
            assert(out@ =~= out0 + word.subrange(0, k + 1));
        }
        assert(word.subrange(0, s as int) =~= word);
        Ok(q + 2)
    } else if t == 3 {
        // Incrementing sequence from a seed byte, wrapping at 256.
        if q >= data.len() {
            return Err(ImportError::OutOfBounds);
        }
        let seed = data[q];
        let mut b = seed;
        for k in 0..s
            invariant
                b == ((seed + k) % 256) as u8,
                out@ == out0 + Seq::new(k as nat, |i: int| ((seed + i) % 256) as u8),
        {
            out.push(b);
            b = if b == 255 {
                0
            } else {
                b + 1
            };
            assert(out@ =~= out0 + Seq::new((k + 1) as nat, |i: int| ((seed + i) % 256) as u8));
        }
        Ok(q + 1)
    } else if t == 4 {
        // Back-reference: copy `s` bytes of earlier output, possibly
        // overlapping the bytes this block itself appends.
        if data.len() - q < 2 {
            return Err(ImportError::OutOfBounds);
        }
        let o: usize = if be {
            data[q] as usize * 0x100 + data[q + 1] as usize
        } else {
            data[q] as usize + data[q + 1] as usize * 0x100
        };
        if o >= out.len() {
            return Err(ImportError::BadBackReference);
        }
        let ghost len0: int = out@.len() as int;
        let ghost per: int = len0 - o;
        for k in 0..s
            invariant
                out@.len() == len0 + k,
                o + k < out@.len(),
                out@ == out0 + spec_backref_bytes(out0, o as int, k as int),
        {
            let l = out.len();
            assert(o + k < l);
            let v = out[o + k];
            proof {
                if o + k < len0 {
                    vstd::arithmetic::div_mod::lemma_small_mod(k as nat, per as nat);
                    assert(v == out0[o + (k as int % per)]);
                } else {
                    let j = o + k - len0;
                    assert(v == out0[o as int + j % per]);
                    vstd::arithmetic::div_mod::lemma_mod_sub_multiples_vanish(k as int, per);
                    assert(j == k - per);
                    assert(v == out0[o as int + k as int % per]);
                }
            }
            out.push(v);
            assert(out@ =~= out0 + spec_backref_bytes(out0, o as int, k + 1));
        }
        Ok(q + 2)
    } else {
        Err(ImportError::BadBlockType)
    }
}

/// Decodes the compressed stream starting at `addr`. The offset of a
/// back-reference block is read big-endian when `big_endian_offset` is set,
/// little-endian otherwise.
#[verifier::loop_isolation(false)]
pub fn decompress(rom: &Rom, addr: PcAddr, big_endian_offset: bool) -> (r: Result<
    Vec<u8>,
    ImportError,
>)
    ensures
        (match spec_decompress(rom.data@, addr.0 as int, big_endian_offset) {
            Ok(s) => r matches Ok(v) && v@ == s,
            Err(e) => r == Err::<Vec<u8>, ImportError>(e),
        }),
{
    let data = &rom.data;
    let be = big_endian_offset;
    let mut out: Vec<u8> = Vec::new();
    let mut p: usize = addr.0 as usize;
    if p >= data.len() {
        return Err(ImportError::OutOfBounds);
    }
    loop
        invariant
            p <= data.len(),
            spec_decompress(data@, addr.0 as int, be) == spec_decompress_from(
                data@,
                p as int,
                be,
                out@,
            ),
        decreases data.len() - p,
    {
        if p >= data.len() {
            return Err(ImportError::OutOfBounds);
        }
        let ghost p0: int = p as int;
        let ghost out0: Seq<u8> = out@;
        let byte = data[p];
        if byte == 0xFF {
            return Ok(out);
        }
        let t: u8;
        let s: usize;
        let q: usize;
        if byte / 32 != 7 {
            t = byte / 32;
            s = (byte % 32) as usize + 1;
            q = p + 1;
        } else {
            if p + 1 >= data.len() {
                return Err(ImportError::OutOfBounds);
            }
            t = (byte / 4) % 8;
            s = (byte % 4) as usize * 256 + data[p + 1] as usize + 1;
            q = p + 2;
        }
        match run_block(data, &mut out, q, t, s, be) {
            Ok(p2) => {
                p = p2;
            },
            Err(e) => {
                return Err(e);
            },
        }
        proof {
            assert(spec_decompress_from(data@, p0, be, out0) == spec_decompress_from(
                data@,
                p as int,
                be,
                out@,
            ));
        }
    }
}

} // verus!
