//! The seeded deterministic byte source behind synthetic content.
//!
//! Generation needs arbitrary-looking bytes for entries, link tags and
//! default addresses, and a run must be reproducible from its seed. The
//! source therefore keeps its generator state as a plain word and steps it
//! with the WyRand word function; every draw is pinned by contract to the
//! state it came from, so equal seeds provably give equal data. Words are
//! serialized to bytes little-endian, a fixed convention independent of
//! the machine.

use vstd::prelude::*;

use crate::chain::{key_bytes, spec_key_bytes};

verus! {

/// The WyRand state increment.
pub const WY_STEP: u64 = 0x2d35_8dcc_aa6c_78a5;

/// The WyRand output mix constant.
pub const WY_MIX: u64 = 0x8bb8_4b93_962e_acc9;

/// One state step: the state advances by the fixed increment, wrapping.
pub open spec fn wy_next(s: u64) -> u64 {
    vstd::wrapping::u64_specs::wrapping_add(s, WY_STEP)
}

/// The word a state emits: the folded halves of the 128-bit product of the
/// state with its mixed form.
pub open spec fn wy_out(s: u64) -> u64 {
    let t = (s as u128) * ((s ^ WY_MIX) as u128);
    (((t % 0x1_0000_0000_0000_0000) as u64) ^ ((t / 0x1_0000_0000_0000_0000) as u64))
}

/// The state after `k` draws.
pub open spec fn wy_state_after(s: u64, k: nat) -> u64
    decreases k,
{
    if k == 0 {
        s
    } else {
        wy_next(wy_state_after(s, (k - 1) as nat))
    }
}

/// The byte stream of the next `k` words, little-endian.
pub open spec fn spec_stream_bytes(s: u64, k: nat) -> Seq<u8>
    decreases k,
{
    if k == 0 {
        seq![]
    } else {
        spec_stream_bytes(s, (k - 1) as nat) + spec_key_bytes(wy_out(wy_state_after(s, k)))
    }
}

/// How many words cover `n` bytes.
pub open spec fn spec_words_for(n: nat) -> nat {
    n / 8 + if n % 8 == 0 {
        0nat
    } else {
        1nat
    }
}

/// Advance the state once and emit its word.
fn wy_draw(s: u64) -> (r: (u64, u64))
    ensures
        r.0 == wy_next(s),
        r.1 == wy_out(r.0),
{
    let s2 = s.wrapping_add(WY_STEP);
    let a: u128 = s2 as u128;
    let b: u128 = (s2 ^ WY_MIX) as u128;
    proof {
        assert(a * b <= 0xFFFF_FFFF_FFFF_FFFFu128 * 0xFFFF_FFFF_FFFF_FFFFu128)
            by (nonlinear_arith)
            requires
                a <= 0xFFFF_FFFF_FFFF_FFFFu128,
                b <= 0xFFFF_FFFF_FFFF_FFFFu128,
        ;
    }
    let t: u128 = a * b;
    let lo: u64 = (t % 0x1_0000_0000_0000_0000) as u64;
    let hi: u64 = (t / 0x1_0000_0000_0000_0000) as u64;
    (s2, lo ^ hi)
}

/// A seeded deterministic byte source; one per generation run. Every draw
/// is a function of the state alone, so a run is reproducible from its
/// seed.
pub struct ByteSource {
    /// The current generator state; the seed before the first draw.
    pub state: u64,
}

impl ByteSource {
    /// Build a source from a seed.
    pub fn with_seed(seed: u64) -> (r: ByteSource)
        ensures
            r.state == seed,
    {
        ByteSource { state: seed }
    }

    /// Draw one word.
    pub fn next_u64(&mut self) -> (r: u64)
        ensures
            final(self).state == wy_next(old(self).state),
            r == wy_out(final(self).state),
    {
        let (s2, out) = wy_draw(self.state);
        self.state = s2;
        out
    }

    /// Draw a buffer of exactly `n` bytes: the little-endian bytes of the
    /// next words, cut to length.
    pub fn next_bytes(&mut self, n: usize) -> (r: Vec<u8>)
        ensures
            r@.len() == n,
            final(self).state == wy_state_after(old(self).state, spec_words_for(n as nat)),
            r@ == spec_stream_bytes(old(self).state, spec_words_for(n as nat)).take(n as int),
    {
        let ghost start = self.state;
        let words = n / 8 + if n % 8 == 0 {
            0
        } else {
            1
        };
        let mut buf: Vec<u8> = Vec::new();
        let mut k: usize = 0;
        while k < words
            invariant
                k <= words,
                words == spec_words_for(n as nat),
                self.state == wy_state_after(start, k as nat),
                buf@ == spec_stream_bytes(start, k as nat),
                buf@.len() == 8 * k,
            decreases words - k,
        {
            let w = self.next_u64();
            let wb = key_bytes(w);
            let ghost before = buf@;
            let mut m: usize = 0;
            while m < 8
                invariant
                    m <= 8,
                    wb@.len() == 8,
                    buf@ == before + wb@.take(m as int),
                decreases 8 - m,
            {
                proof {
                    assert(wb@.take(m + 1) =~= wb@.take(m as int).push(wb@[m as int]));
                }
                buf.push(wb[m]);
                m = m + 1;
            }
            proof {
                assert(wb@.take(8) =~= wb@);
                assert(wy_state_after(start, (k + 1) as nat) == wy_next(
                    wy_state_after(start, k as nat),
                ));
            }
            k = k + 1;
        }
        let mut out: Vec<u8> = Vec::new();
        let mut i: usize = 0;
        proof {
            assert(8 * words >= n);
        }
        while i < n
            invariant
                i <= n,
                n <= buf@.len(),
                out@ == buf@.take(i as int),
            decreases n - i,
        {
            proof {
                assert(buf@.take(i + 1) =~= buf@.take(i as int).push(buf@[i as int]));
            }
            out.push(buf[i]);
            i = i + 1;
        }
        proof {
            assert(out@ =~= spec_stream_bytes(start, spec_words_for(n as nat)).take(n as int));
        }
        out
    }
}

} // verus!
