use vstd::prelude::*;
use vstd::arithmetic::power2::{pow2, lemma2_to64};
use crate::controls::is_time_step;

verus! {

/// Size in bytes of one particle record on the wire.
pub const PARTICLE_STRIDE: usize = 48;

/// Size in bytes of the shared parameter record on the wire.
pub const PARAMETERS_SIZE: usize = 96;

/// The four little-endian bytes of a 32-bit word.
pub open spec fn le32(x: u32) -> Seq<u8> {
    seq![
        (x % 256) as u8,
        ((x / 256) % 256) as u8,
        ((x / 65536) % 256) as u8,
        ((x / 16777216) % 256) as u8,
    ]
}

/// The eight little-endian bytes of a 64-bit word.
pub open spec fn le64(x: u64) -> Seq<u8> {
    le32((x % 4294967296) as u32) + le32((x / 4294967296) as u32)
}

/// `n` zero bytes of padding.
pub open spec fn zeros(n: nat) -> Seq<u8> {
    Seq::new(n, |i: int| 0u8)
}

/// The little-endian bytes of each word of `s`, in order.
pub open spec fn words_bytes(s: Seq<u32>) -> Seq<u8>
    decreases s.len(),
{
    if s.len() == 0 {
        Seq::empty()
    } else {
        words_bytes(s.drop_last()) + le32(s.last())
    }
}

/// One particle as the compute and render stages read it. Every real-valued
/// field holds the bit pattern of an IEEE-754 number: binary32 for the
/// position, radius and velocity, binary64 for the mass.
#[derive(Clone, Copy, Debug, PartialEq)]
pub struct Particle {
    pub position: [u32; 3],
    pub radius: u32,
    pub velocity: [u32; 3],
    pub mass: u64,
}

/// The per-frame record shared by the compute and render stages. The matrix
/// (column-major), the camera position and the time step hold binary32 bit
/// patterns; the particle count is a plain integer.
#[derive(Clone, Copy, Debug, PartialEq)]
pub struct SharedParameters {
    pub matrix: [u32; 16],
    pub camera_position: [u32; 3],
    pub particle_count: u32,
    pub time_step: u32,
}

/// position (12) · radius (4) · velocity (12) · padding (4) · mass (8) · padding (8).
pub open spec fn particle_bytes(p: Particle) -> Seq<u8> {
    words_bytes(p.position@) + le32(p.radius) + words_bytes(p.velocity@) + zeros(4)
        + le64(p.mass) + zeros(8)
}

/// The records of all particles of `s`, back to back.
pub open spec fn particles_bytes(s: Seq<Particle>) -> Seq<u8>
    decreases s.len(),
{
    if s.len() == 0 {
        Seq::empty()
    } else {
        particles_bytes(s.drop_last()) + particle_bytes(s.last())
    }
}

/// matrix (64) · camera position (12) · particle count (4) · time step (4) · padding (12).
pub open spec fn parameters_bytes(g: SharedParameters) -> Seq<u8> {
    words_bytes(g.matrix@) + words_bytes(g.camera_position@) + le32(g.particle_count)
        + le32(g.time_step) + zeros(12)
}

pub proof fn lemma_words_bytes_len(s: Seq<u32>)
    ensures
        words_bytes(s).len() == 4 * s.len(),
    decreases s.len(),
{
    if s.len() > 0 {
        lemma_words_bytes_len(s.drop_last());
    }
}

pub proof fn lemma_particles_bytes_len(s: Seq<Particle>)
    ensures
        particles_bytes(s).len() == 48 * s.len(),
    decreases s.len(),
{
    if s.len() > 0 {
        lemma_particles_bytes_len(s.drop_last());
        let p = s.last();
        lemma_words_bytes_len(p.position@);
        lemma_words_bytes_len(p.velocity@);
    }
}

fn push_le32(out: &mut Vec<u8>, x: u32)
    ensures
        final(out)@ == old(out)@ + le32(x),
{
    out.push((x % 256) as u8);
    out.push(((x / 256) % 256) as u8);
    out.push(((x / 65536) % 256) as u8);
    out.push(((x / 16777216) % 256) as u8);
    assert(out@ =~= old(out)@ + le32(x));
}

fn push_le64(out: &mut Vec<u8>, x: u64)
    ensures
        final(out)@ == old(out)@ + le64(x),
{
    push_le32(out, (x % 4294967296) as u32);
    push_le32(out, (x / 4294967296) as u32);
    assert(out@ =~= old(out)@ + le64(x));
}

fn push_zeros(out: &mut Vec<u8>, n: usize)
    ensures
        final(out)@ == old(out)@ + zeros(n as nat),
{
    let mut i: usize = 0;
    while i < n
        invariant
            i <= n,
            out@ == old(out)@ + zeros(i as nat),
        decreases n - i,
    {
        out.push(0u8);
        i = i + 1;
        assert(out@ =~= old(out)@ + zeros(i as nat));
    }
}

fn push_words(out: &mut Vec<u8>, words: &[u32])
    ensures
        final(out)@ == old(out)@ + words_bytes(words@),
{
    let mut i: usize = 0;
    while i < words.len()
        invariant
            i <= words@.len(),
            out@ == old(out)@ + words_bytes(words@.subrange(0, i as int)),
        decreases words@.len() - i,
    {
        push_le32(out, words[i]);
        proof {
            let t = words@.subrange(0, i + 1);
            assert(t.drop_last() =~= words@.subrange(0, i as int));
        }
        i = i + 1;
        assert(out@ =~= old(out)@ + words_bytes(words@.subrange(0, i as int)));
    }
    assert(words@.subrange(0, words@.len() as int) =~= words@);
}

/// Appends the wire record of one particle.
pub fn encode_particle(p: &Particle, out: &mut Vec<u8>)
    ensures
        final(out)@ == old(out)@ + particle_bytes(*p),
{
    push_words(out, p.position.as_slice());
    push_le32(out, p.radius);
    push_words(out, p.velocity.as_slice());
    push_zeros(out, 4);
    push_le64(out, p.mass);
    push_zeros(out, 8);
    assert(out@ =~= old(out)@ + particle_bytes(*p));
}

/// The contents of a particle buffer: each particle's record, in order.
pub fn encode_particles(particles: &Vec<Particle>) -> (r: Vec<u8>)
    ensures
        r@ == particles_bytes(particles@),
        r@.len() == PARTICLE_STRIDE * particles@.len(),
{
    let mut out: Vec<u8> = Vec::new();
    let mut i: usize = 0;
    while i < particles.len()
        invariant
            i <= particles@.len(),
            out@ == particles_bytes(particles@.subrange(0, i as int)),
        decreases particles@.len() - i,
    {
        encode_particle(&particles[i], &mut out);
        proof {
            let t = particles@.subrange(0, i + 1);
            assert(t.drop_last() =~= particles@.subrange(0, i as int));
        }
        i = i + 1;
    }
    assert(particles@.subrange(0, particles@.len() as int) =~= particles@);
    proof {
        lemma_particles_bytes_len(particles@);
    }
    out
}

/// The contents of the shared parameter buffer.
pub fn encode_parameters(g: &SharedParameters) -> (r: Vec<u8>)
    ensures
        r@ == parameters_bytes(*g),
        r@.len() == PARAMETERS_SIZE,
{
    let mut out: Vec<u8> = Vec::new();
    push_words(&mut out, g.matrix.as_slice());
    push_words(&mut out, g.camera_position.as_slice());
    push_le32(&mut out, g.particle_count);
    push_le32(&mut out, g.time_step);
    push_zeros(&mut out, 12);
    proof {
        lemma_words_bytes_len(g.matrix@);
        lemma_words_bytes_len(g.camera_position@);
    }
    assert(out@ =~= parameters_bytes(*g));
    out
}

/// `bits` is a binary32 number whose value is exactly the integer `n`:
/// positive zero for 0, else a positive normal number
/// `(1 + m / 2^23) · 2^(e - 127)` with biased exponent `e` and mantissa `m`.
pub open spec fn is_binary32_of(bits: u32, n: int) -> bool {
    let e = (bits / 8388608) as int;
    let m = (bits % 8388608) as int;
    if n == 0 {
        bits == 0
    } else {
        127 <= e < 255 && (8388608 + m) * pow2((e - 127) as nat) == n * 8388608
    }
}

/// The binary32 word of a selectable time step, as the shared parameters carry it.
pub fn time_step_word(seconds: u32) -> (r: u32)
    requires
        is_time_step(seconds),
    ensures
        is_binary32_of(r, seconds as int),
{
    proof {
        lemma2_to64();
    }
    let r: u32 = if seconds == 0 {
        0
    } else if seconds == 10 {
        assert(1092616192u32 / 8388608 == 130 && 1092616192u32 % 8388608 == 2097152);
        assert((8388608 + 2097152) * pow2(3) == 10 * 8388608);
        1092616192
    } else if seconds == 20 {
        assert(1101004800u32 / 8388608 == 131 && 1101004800u32 % 8388608 == 2097152);
        assert((8388608 + 2097152) * pow2(4) == 20 * 8388608);
        1101004800
    } else if seconds == 40 {
        assert(1109393408u32 / 8388608 == 132 && 1109393408u32 % 8388608 == 2097152);
        assert((8388608 + 2097152) * pow2(5) == 40 * 8388608);
        1109393408
    } else if seconds == 80 {
        assert(1117782016u32 / 8388608 == 133 && 1117782016u32 % 8388608 == 2097152);
        assert((8388608 + 2097152) * pow2(6) == 80 * 8388608);
        1117782016
    } else if seconds == 160 {
        assert(1126170624u32 / 8388608 == 134 && 1126170624u32 % 8388608 == 2097152);
        assert((8388608 + 2097152) * pow2(7) == 160 * 8388608);
        1126170624
    } else if seconds == 320 {
        assert(1134559232u32 / 8388608 == 135 && 1134559232u32 % 8388608 == 2097152);
        assert((8388608 + 2097152) * pow2(8) == 320 * 8388608);
        1134559232
    } else if seconds == 640 {
        assert(1142947840u32 / 8388608 == 136 && 1142947840u32 % 8388608 == 2097152);
        assert((8388608 + 2097152) * pow2(9) == 640 * 8388608);
        1142947840
    } else if seconds == 1280 {
        assert(1151336448u32 / 8388608 == 137 && 1151336448u32 % 8388608 == 2097152);
        assert((8388608 + 2097152) * pow2(10) == 1280 * 8388608);
        1151336448
    } else {
        assert(1159725056u32 / 8388608 == 138 && 1159725056u32 % 8388608 == 2097152);
        assert((8388608 + 2097152) * pow2(11) == 2560 * 8388608);
        1159725056
    };
    r
}

impl SharedParameters {
    /// The record for one frame, with the time step given in seconds.
    pub fn new(matrix: [u32; 16], camera_position: [u32; 3], particle_count: u32, time_step: u32) -> (r: SharedParameters)
        requires
            is_time_step(time_step),
        ensures
            r.matrix == matrix,
            r.camera_position == camera_position,
            r.particle_count == particle_count,
            is_binary32_of(r.time_step, time_step as int),
    {
        SharedParameters { matrix, camera_position, particle_count, time_step: time_step_word(time_step) }
    }
}

} // verus!
