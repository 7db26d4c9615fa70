//! SHA-256 (FIPS 180-4) over a stream of bytes, with the digest as 64
//! lower-case hexadecimal digits.
use vstd::prelude::*;

use crate::text::push_str;
use crate::verification::{hex_digits, hex_digits_exec, lemma_hex_len};

verus! {

// ---------------------------------------------------------------------------
// Specification
// ---------------------------------------------------------------------------

/// The 64 round constants.
pub open spec fn round_constants() -> Seq<u32> {
    seq![
        0x428a2f98u32, 0x71374491, 0xb5c0fbcf, 0xe9b5dba5, 0x3956c25b, 0x59f111f1, 0x923f82a4, 0xab1c5ed5,
        0xd807aa98, 0x12835b01, 0x243185be, 0x550c7dc3, 0x72be5d74, 0x80deb1fe, 0x9bdc06a7, 0xc19bf174,
        0xe49b69c1, 0xefbe4786, 0x0fc19dc6, 0x240ca1cc, 0x2de92c6f, 0x4a7484aa, 0x5cb0a9dc, 0x76f988da,
        0x983e5152, 0xa831c66d, 0xb00327c8, 0xbf597fc7, 0xc6e00bf3, 0xd5a79147, 0x06ca6351, 0x14292967,
        0x27b70a85, 0x2e1b2138, 0x4d2c6dfc, 0x53380d13, 0x650a7354, 0x766a0abb, 0x81c2c92e, 0x92722c85,
        0xa2bfe8a1, 0xa81a664b, 0xc24b8b70, 0xc76c51a3, 0xd192e819, 0xd6990624, 0xf40e3585, 0x106aa070,
        0x19a4c116, 0x1e376c08, 0x2748774c, 0x34b0bcb5, 0x391c0cb3, 0x4ed8aa4a, 0x5b9cca4f, 0x682e6ff3,
        0x748f82ee, 0x78a5636f, 0x84c87814, 0x8cc70208, 0x90befffa, 0xa4506ceb, 0xbef9a3f7, 0xc67178f2,
    ]
}

/// The initial hash value.
pub open spec fn initial_hash() -> Seq<u32> {
    seq![
        0x6a09e667u32, 0xbb67ae85, 0x3c6ef372, 0xa54ff53a, 0x510e527f, 0x9b05688c, 0x1f83d9ab, 0x5be0cd19,
    ]
}

/// Σ0.
pub open spec fn big_sigma0(x: u32) -> u32 {
    ((x >> 2u32) | (x << 30u32)) ^ ((x >> 13u32) | (x << 19u32)) ^ ((x >> 22u32) | (x << 10u32))
}

/// Σ1.
pub open spec fn big_sigma1(x: u32) -> u32 {
    ((x >> 6u32) | (x << 26u32)) ^ ((x >> 11u32) | (x << 21u32)) ^ ((x >> 25u32) | (x << 7u32))
}

/// σ0.
pub open spec fn small_sigma0(x: u32) -> u32 {
    ((x >> 7u32) | (x << 25u32)) ^ ((x >> 18u32) | (x << 14u32)) ^ (x >> 3u32)
}

/// σ1.
pub open spec fn small_sigma1(x: u32) -> u32 {
    ((x >> 17u32) | (x << 15u32)) ^ ((x >> 19u32) | (x << 13u32)) ^ (x >> 10u32)
}

/// Ch.
pub open spec fn choose_bits(x: u32, y: u32, z: u32) -> u32 {
    (x & y) ^ (!x & z)
}

/// Maj.
pub open spec fn majority(x: u32, y: u32, z: u32) -> u32 {
    (x & y) ^ (x & z) ^ (y & z)
}

/// Word `j` of a 64-byte block, big-endian.
pub open spec fn block_word(block: Seq<u8>, j: int) -> u32 {
    ((block[4 * j] as u32) << 24u32) | ((block[4 * j + 1] as u32) << 16u32) | ((block[4 * j + 2]
        as u32) << 8u32) | (block[4 * j + 3] as u32)
}

/// Word `t` of the message schedule of a block.
pub open spec fn schedule(block: Seq<u8>, t: nat) -> u32
    decreases t,
{
    if t < 16 {
        block_word(block, t as int)
    } else {
        small_sigma1(schedule(block, (t - 2) as nat)).wrapping_add(schedule(block, (t - 7) as nat)).wrapping_add(
            small_sigma0(schedule(block, (t - 15) as nat)),
        ).wrapping_add(schedule(block, (t - 16) as nat))
    }
}

/// Round `t` of the compression function on the working variables `a..h`.
pub open spec fn round(s: Seq<u32>, block: Seq<u8>, t: nat) -> Seq<u32> {
    let t1 = s[7].wrapping_add(big_sigma1(s[4])).wrapping_add(choose_bits(s[4], s[5], s[6])).wrapping_add(
        round_constants()[t as int],
    ).wrapping_add(schedule(block, t));
    let t2 = big_sigma0(s[0]).wrapping_add(majority(s[0], s[1], s[2]));
    seq![t1.wrapping_add(t2), s[0], s[1], s[2], s[3].wrapping_add(t1), s[4], s[5], s[6]]
}

/// The working variables after the first `n` rounds.
pub open spec fn rounds(s: Seq<u32>, block: Seq<u8>, n: nat) -> Seq<u32>
    decreases n,
{
    if n == 0 {
        s
    } else {
        round(rounds(s, block, (n - 1) as nat), block, (n - 1) as nat)
    }
}

/// The compression function: the hash value after one 64-byte block.
pub open spec fn compress(h: Seq<u32>, block: Seq<u8>) -> Seq<u32> {
    Seq::new(8, |i: int| h[i].wrapping_add(rounds(h, block, 64)[i]))
}

/// The hash value after the whole 64-byte blocks of `bytes`, front to back.
pub open spec fn hash_blocks(h: Seq<u32>, bytes: Seq<u8>) -> Seq<u32>
    decreases bytes.len(),
{
    if bytes.len() < 64 {
        h
    } else {
        hash_blocks(compress(h, bytes.take(64)), bytes.skip(64))
    }
}

/// The number of zero bytes of padding after the `0x80` byte.
pub open spec fn zero_count(n: nat) -> nat {
    if n % 64 < 56 {
        (55 - n % 64) as nat
    } else {
        (119 - n % 64) as nat
    }
}

/// A 64-bit number as 8 bytes, big-endian.
pub open spec fn be_bytes(x: u64) -> Seq<u8> {
    seq![
        (x >> 56u64) as u8, (x >> 48u64) as u8, (x >> 40u64) as u8, (x >> 32u64) as u8,
        (x >> 24u64) as u8, (x >> 16u64) as u8, (x >> 8u64) as u8, x as u8,
    ]
}

/// The padded message: `0x80`, zeros, then the message length in bits.
pub open spec fn padded(msg: Seq<u8>) -> Seq<u8> {
    msg + seq![0x80u8] + Seq::new(zero_count(msg.len()), |i: int| 0u8) + be_bytes(
        (msg.len() * 8) as u64,
    )
}

/// The SHA-256 hash value of a message.
pub open spec fn sha256(msg: Seq<u8>) -> Seq<u32> {
    hash_blocks(initial_hash(), padded(msg))
}

/// Hash words as hexadecimal digits, eight per word.
pub open spec fn words_hex(ws: Seq<u32>) -> Seq<char>
    decreases ws.len(),
{
    if ws.len() == 0 {
        Seq::empty()
    } else {
        words_hex(ws.drop_last()) + hex_digits(ws.last() as nat, 8)
    }
}

/// The SHA-256 digest of a message as 64 lower-case hexadecimal digits.
pub open spec fn sha256_hex(msg: Seq<u8>) -> Seq<char> {
    words_hex(sha256(msg))
}

/// The largest message the hasher takes: its length in bits must fit 64 bits.
pub open spec fn max_message_len() -> nat {
    0x2000_0000_0000_0000
}

// ---------------------------------------------------------------------------
// Lemmas
// ---------------------------------------------------------------------------

/// Hashing whole blocks of `a` and then `b` is hashing `a + b`.
pub proof fn lemma_hash_blocks_concat(h: Seq<u32>, a: Seq<u8>, b: Seq<u8>)
    requires
        a.len() % 64 == 0,
    ensures
        hash_blocks(h, a + b) == hash_blocks(hash_blocks(h, a), b),
    decreases a.len(),
{
    if a.len() == 0 {
        assert(a + b =~= b);
    } else {
        assert((a + b).take(64) =~= a.take(64));
        assert((a + b).skip(64) =~= a.skip(64) + b);
        lemma_hash_blocks_concat(compress(h, a.take(64)), a.skip(64), b);
    }
}

/// Hashing one 64-byte block is compressing it.
proof fn lemma_hash_one_block(h: Seq<u32>, block: Seq<u8>)
    requires
        block.len() == 64,
    ensures
        hash_blocks(h, block) == compress(h, block),
{
    assert(block.take(64) =~= block);
    assert(block.skip(64).len() == 0);
    assert(hash_blocks(compress(h, block), block.skip(64)) == compress(h, block));
}

// ---------------------------------------------------------------------------
// Implementation
// ---------------------------------------------------------------------------

fn big_sigma0_exec(x: u32) -> (r: u32)
    ensures
        r == big_sigma0(x),
{
    ((x >> 2u32) | (x << 30u32)) ^ ((x >> 13u32) | (x << 19u32)) ^ ((x >> 22u32) | (x << 10u32))
}

fn big_sigma1_exec(x: u32) -> (r: u32)
    ensures
        r == big_sigma1(x),
{
    ((x >> 6u32) | (x << 26u32)) ^ ((x >> 11u32) | (x << 21u32)) ^ ((x >> 25u32) | (x << 7u32))
}

fn small_sigma0_exec(x: u32) -> (r: u32)
    ensures
        r == small_sigma0(x),
{
    ((x >> 7u32) | (x << 25u32)) ^ ((x >> 18u32) | (x << 14u32)) ^ (x >> 3u32)
}

fn small_sigma1_exec(x: u32) -> (r: u32)
    ensures
        r == small_sigma1(x),
{
    ((x >> 17u32) | (x << 15u32)) ^ ((x >> 19u32) | (x << 13u32)) ^ (x >> 10u32)
}

/// The round constants as a vector.
fn round_constants_exec() -> (r: Vec<u32>)
    ensures
        r@ == round_constants(),
{
    let r: Vec<u32> = vec![
        0x428a2f98u32, 0x71374491, 0xb5c0fbcf, 0xe9b5dba5, 0x3956c25b, 0x59f111f1, 0x923f82a4, 0xab1c5ed5,
        0xd807aa98, 0x12835b01, 0x243185be, 0x550c7dc3, 0x72be5d74, 0x80deb1fe, 0x9bdc06a7, 0xc19bf174,
        0xe49b69c1, 0xefbe4786, 0x0fc19dc6, 0x240ca1cc, 0x2de92c6f, 0x4a7484aa, 0x5cb0a9dc, 0x76f988da,
        0x983e5152, 0xa831c66d, 0xb00327c8, 0xbf597fc7, 0xc6e00bf3, 0xd5a79147, 0x06ca6351, 0x14292967,
        0x27b70a85, 0x2e1b2138, 0x4d2c6dfc, 0x53380d13, 0x650a7354, 0x766a0abb, 0x81c2c92e, 0x92722c85,
        0xa2bfe8a1, 0xa81a664b, 0xc24b8b70, 0xc76c51a3, 0xd192e819, 0xd6990624, 0xf40e3585, 0x106aa070,
        0x19a4c116, 0x1e376c08, 0x2748774c, 0x34b0bcb5, 0x391c0cb3, 0x4ed8aa4a, 0x5b9cca4f, 0x682e6ff3,
        0x748f82ee, 0x78a5636f, 0x84c87814, 0x8cc70208, 0x90befffa, 0xa4506ceb, 0xbef9a3f7, 0xc67178f2,
    ];
    assert(r@ =~= round_constants());
    r
}

/// The message schedule of a block.
fn schedule_exec(block: &Vec<u8>) -> (w: Vec<u32>)
    requires
        block.len() == 64,
    ensures
        w.len() == 64,
        forall|j: int| 0 <= j < 64 ==> w@[j] == schedule(block@, j as nat),
{
    let mut w: Vec<u32> = Vec::new();
    let mut t: usize = 0;
    while t < 64
        invariant
            0 <= t <= 64,
            block.len() == 64,
            w.len() == t,
            forall|j: int| 0 <= j < t ==> w@[j] == schedule(block@, j as nat),
        decreases 64 - t,
    {
        if t < 16 {
            let x = ((block[4 * t] as u32) << 24u32) | ((block[4 * t + 1] as u32) << 16u32) | ((block[4
                * t + 2] as u32) << 8u32) | (block[4 * t + 3] as u32);
            w.push(x);
        } else {
            let x = small_sigma1_exec(w[t - 2]).wrapping_add(w[t - 7]).wrapping_add(
                small_sigma0_exec(w[t - 15]),
            ).wrapping_add(w[t - 16]);
            w.push(x);
        }
        t = t + 1;
    }
    w
}

/// The compression function on one 64-byte block.
fn compress_exec(h: &Vec<u32>, block: &Vec<u8>, k: &Vec<u32>) -> (r: Vec<u32>)
    requires
        h.len() == 8,
        block.len() == 64,
        k@ == round_constants(),
    ensures
        r@ == compress(h@, block@),
        r.len() == 8,
{
    let w = schedule_exec(block);
    let mut a = h[0];
    let mut b = h[1];
    let mut c = h[2];
    let mut d = h[3];
    let mut e = h[4];
    let mut f = h[5];
    let mut g = h[6];
    let mut hh = h[7];
    let mut t: usize = 0;
    assert(seq![a, b, c, d, e, f, g, hh] =~= h@);
    while t < 64
        invariant
            0 <= t <= 64,
            h.len() == 8,
            k@ == round_constants(),
            w.len() == 64,
            forall|j: int| 0 <= j < 64 ==> w@[j] == schedule(block@, j as nat),
            seq![a, b, c, d, e, f, g, hh] == rounds(h@, block@, t as nat),
        decreases 64 - t,
    {
        let ghost s = seq![a, b, c, d, e, f, g, hh];
        let t1 = hh.wrapping_add(big_sigma1_exec(e)).wrapping_add((e & f) ^ (!e & g)).wrapping_add(
            k[t],
        ).wrapping_add(w[t]);
        let t2 = big_sigma0_exec(a).wrapping_add((a & b) ^ (a & c) ^ (b & c));
        hh = g;
        g = f;
        f = e;
        e = d.wrapping_add(t1);
        d = c;
        c = b;
        b = a;
        a = t1.wrapping_add(t2);
        proof {
            assert(seq![a, b, c, d, e, f, g, hh] =~= round(s, block@, t as nat));
        }
        t = t + 1;
    }
    let ghost fin = rounds(h@, block@, 64);
    let mut r: Vec<u32> = Vec::new();
    r.push(h[0].wrapping_add(a));
    r.push(h[1].wrapping_add(b));
    r.push(h[2].wrapping_add(c));
    r.push(h[3].wrapping_add(d));
    r.push(h[4].wrapping_add(e));
    r.push(h[5].wrapping_add(f));
    r.push(h[6].wrapping_add(g));
    r.push(h[7].wrapping_add(hh));
    proof {
        assert(fin == seq![a, b, c, d, e, f, g, hh]);
        assert(r@ =~= compress(h@, block@));
    }
    r
}

/// The 64 bytes of `v` from `start` on.
fn block_at(v: &Vec<u8>, start: usize) -> (r: Vec<u8>)
    requires
        start + 64 <= v.len(),
    ensures
        r@ == v@.subrange(start as int, start + 64),
{
    let mut r: Vec<u8> = Vec::new();
    let mut i: usize = 0;
    while i < 64
        invariant
            0 <= i <= 64,
            start + 64 <= v.len(),
            r@ == v@.subrange(start as int, start + i),
        decreases 64 - i,
    {
        r.push(v[start + i]);
        assert(v@.subrange(start as int, start + i + 1) =~= v@.subrange(start as int, start + i).push(
            v@[start + i],
        ));
        i = i + 1;
    }
    r
}

/// A SHA-256 computation over bytes fed in pieces.
pub struct Sha256 {
    h: Vec<u32>,
    pending: Vec<u8>,
    len: u64,
    k: Vec<u32>,
    seen: Ghost<Seq<u8>>,
}

impl View for Sha256 {
    type V = Seq<u8>;

    /// The bytes fed so far.
    closed spec fn view(&self) -> Seq<u8> {
        self.seen@
    }
}

impl Sha256 {
    /// The hash value covers the whole blocks fed so far, and the bytes after
    /// them wait for the rest of their block.
    pub closed spec fn wf(&self) -> bool {
        let full = self.seen@.len() - self.pending@.len();
        &&& self.h@.len() == 8
        &&& self.k@ == round_constants()
        &&& self.pending@.len() < 64
        &&& self.len == self.seen@.len()
        &&& self.seen@.len() < max_message_len()
        &&& 0 <= full
        &&& full % 64 == 0
        &&& self.pending@ == self.seen@.skip(full)
        &&& self.h@ == hash_blocks(initial_hash(), self.seen@.take(full))
    }

    /// A computation that has been fed nothing.
    pub fn new() -> (r: Sha256)
        ensures
            r.wf(),
            r@ == Seq::<u8>::empty(),
    {
        let h: Vec<u32> = vec![
            0x6a09e667u32, 0xbb67ae85, 0x3c6ef372, 0xa54ff53a, 0x510e527f, 0x9b05688c, 0x1f83d9ab, 0x5be0cd19,
        ];
        assert(h@ =~= initial_hash());
        let r = Sha256 {
            h,
            pending: Vec::new(),
            len: 0,
            k: round_constants_exec(),
            seen: Ghost(Seq::empty()),
        };
        assert(r.seen@.take(0) =~= Seq::<u8>::empty());
        assert(r.seen@.skip(0) =~= r.pending@);
        r
    }

    /// The number of bytes fed so far.
    pub fn fed_len(&self) -> (r: u64)
        requires
            self.wf(),
        ensures
            r == self@.len(),
    {
        self.len
    }

    /// Feeds the next piece of the message.
    pub fn update(&mut self, chunk: &[u8])
        requires
            old(self).wf(),
            old(self)@.len() + chunk@.len() < max_message_len(),
        ensures
            final(self).wf(),
            final(self)@ == old(self)@ + chunk@,
    {
        let ghost start = self.seen@;
        let mut i: usize = 0;
        while i < chunk.len()
            invariant
                0 <= i <= chunk.len(),
                self.wf(),
                start.len() + chunk@.len() < max_message_len(),
                self.seen@ == start + chunk@.take(i as int),
            decreases chunk.len() - i,
        {
            let b = chunk[i];
            let ghost before = self.seen@;
            let ghost full = before.len() - self.pending@.len();
            self.pending.push(b);
            self.len = self.len + 1;
            self.seen = Ghost(before.push(b));
            proof {
                assert(chunk@.take(i + 1) =~= chunk@.take(i as int).push(b));
                assert(self.seen@.take(full) =~= before.take(full));
                assert(self.pending@ =~= self.seen@.skip(full));
            }
            if self.pending.len() == 64 {
                let h2 = compress_exec(&self.h, &self.pending, &self.k);
                proof {
                    let nfull = full + 64;
                    assert(self.seen@.take(nfull) =~= self.seen@.take(full) + self.pending@);
                    lemma_hash_blocks_concat(initial_hash(), self.seen@.take(full), self.pending@);
                    lemma_hash_one_block(self.h@, self.pending@);
                    assert(self.seen@.skip(nfull) =~= Seq::<u8>::empty());
                }
                self.h = h2;
                self.pending = Vec::new();
            }
            i = i + 1;
        }
        assert(chunk@.take(chunk@.len() as int) =~= chunk@);
    }

    /// The SHA-256 digest of the bytes fed so far, as 64 lower-case
    /// hexadecimal digits.
    pub fn hex_digest(&self) -> (r: String)
        requires
            self.wf(),
        ensures
            r@ == sha256_hex(self@),
            r@.len() == 64,
    {
        let ghost msg = self.seen@;
        let ghost full = msg.len() - self.pending@.len();
        let p = self.pending.len();
        let mut tail: Vec<u8> = Vec::new();
        let mut i: usize = 0;
        while i < p
            invariant
                0 <= i <= p,
                p == self.pending.len(),
                tail@ == self.pending@.take(i as int),
            decreases p - i,
        {
            tail.push(self.pending[i]);
            assert(self.pending@.take(i + 1) =~= self.pending@.take(i as int).push(self.pending@[i as int]));
            i = i + 1;
        }
        assert(self.pending@.take(p as int) =~= self.pending@);
        tail.push(0x80u8);
        let z: usize = if p < 56 {
            55 - p
        } else {
            119 - p
        };
        proof {
            assert(msg.len() % 64 == p) by {
                assert(msg.len() == full + p);
            }
        }
        let ghost head = tail@;
        let mut j: usize = 0;
        while j < z
            invariant
                0 <= j <= z,
                z < 64,
                tail@ == head + Seq::new(j as nat, |x: int| 0u8),
            decreases z - j,
        {
            tail.push(0u8);
            assert(tail@ =~= head + Seq::new((j + 1) as nat, |x: int| 0u8));
            j = j + 1;
        }
        let bits: u64 = self.len * 8;
        tail.push(#[verifier::truncate] ((bits >> 56u64) as u8));
        tail.push(#[verifier::truncate] ((bits >> 48u64) as u8));
        tail.push(#[verifier::truncate] ((bits >> 40u64) as u8));
        tail.push(#[verifier::truncate] ((bits >> 32u64) as u8));
        tail.push(#[verifier::truncate] ((bits >> 24u64) as u8));
        tail.push(#[verifier::truncate] ((bits >> 16u64) as u8));
        tail.push(#[verifier::truncate] ((bits >> 8u64) as u8));
        tail.push(#[verifier::truncate] (bits as u8));
        proof {
            assert(tail@ =~= self.pending@ + seq![0x80u8] + Seq::new(zero_count(msg.len()), |x: int| 0u8)
                + be_bytes((msg.len() * 8) as u64));
            assert(padded(msg) =~= msg.take(full) + tail@) by {
                assert(msg =~= msg.take(full) + self.pending@);
            }
            lemma_hash_blocks_concat(initial_hash(), msg.take(full), tail@);
        }
        proof {
            assert(sha256(msg) == hash_blocks(self.h@, tail@));
            assert(tail@.len() == 64 || tail@.len() == 128);
        }
        let first = block_at(&tail, 0);
        let mut h = compress_exec(&self.h, &first, &self.k);
        proof {
            assert(tail@.take(64) =~= first@);
            assert(hash_blocks(self.h@, tail@) == hash_blocks(h@, tail@.skip(64)));
        }
        if tail.len() == 128 {
            let second = block_at(&tail, 64);
            proof {
                assert(tail@.skip(64) =~= second@);
                lemma_hash_one_block(h@, second@);
            }
            h = compress_exec(&h, &second, &self.k);
        } else {
            proof {
                assert(tail@.skip(64).len() == 0);
            }
        }
        assert(h@ == sha256(msg));
        let mut r = String::new();
        let mut q: usize = 0;
        while q < 8
            invariant
                0 <= q <= 8,
                h.len() == 8,
                r@ == words_hex(h@.take(q as int)),
                r@.len() == 8 * q,
            decreases 8 - q,
        {
            let digits = hex_digits_exec(h[q] as u64, 8);
            proof {
                lemma_hex_len(h[q as int] as nat, 8);
            }
            push_str(&mut r, digits.as_str());
            assert(h@.take(q + 1).drop_last() =~= h@.take(q as int));
            q = q + 1;
        }
        assert(h@.take(8) =~= h@);
        r
    }
}

} // verus!
