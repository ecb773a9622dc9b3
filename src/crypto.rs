//! The hash, encoding and generator that the contract relies on.
use secret_toolkit::crypto::ContractPrng;
use vstd::prelude::*;
use vstd::utf8::encode_utf8;

verus! {

/// The SHA-256 digest of a byte string.
pub uninterp spec fn sha256_of(data: Seq<u8>) -> Seq<u8>;

/// The base64 digit of a six-bit value, in the standard alphabet.
pub open spec fn b64_digit(v: int) -> char {
    if v < 26 {
        ((65 + v) as u8) as char
    } else if v < 52 {
        ((97 + v - 26) as u8) as char
    } else if v < 62 {
        ((48 + v - 52) as u8) as char
    } else if v == 62 {
        '+'
    } else {
        '/'
    }
}

/// The standard, padded base64 text of a byte string: four digits for each
/// group of three bytes, and a last group of one or two bytes padded with `=`.
pub open spec fn base64_of(d: Seq<u8>) -> Seq<char>
    decreases d.len(),
{
    if d.len() == 0 {
        Seq::empty()
    } else if d.len() == 1 {
        seq![b64_digit((d[0] as int) / 4), b64_digit(((d[0] as int) % 4) * 16), '=', '=']
    } else if d.len() == 2 {
        seq![b64_digit((d[0] as int) / 4), b64_digit(((d[0] as int) % 4) * 16 + (d[1] as int) / 16), b64_digit(((d[1] as int) % 16) * 4), '=']
    } else {
        seq![
            b64_digit((d[0] as int) / 4),
            b64_digit(((d[0] as int) % 4) * 16 + (d[1] as int) / 16),
            b64_digit(((d[1] as int) % 16) * 4 + (d[2] as int) / 64),
            b64_digit((d[2] as int) % 64),
        ] + base64_of(d.subrange(3, d.len() as int))
    }
}

/// Relies on secret_toolkit::crypto::sha_256: the 32-byte SHA-256 digest of `data`.
#[verifier::external_body]
fn sha256(data: &[u8]) -> (r: Vec<u8>)
    ensures
        r@ == sha256_of(data@),
        r@.len() == 32,
{
    secret_toolkit::crypto::sha_256(data).to_vec()
}

/// Relies on base64::encode: the standard alphabet, with padding.
#[verifier::external_body]
fn base64_encode(data: &[u8]) -> (r: String)
    ensures
        r@ == base64_of(data@),
{
    base64::encode(data)
}

/// The generator of the draw stream.
#[verifier::external_type_specification]
#[verifier::external_body]
pub struct ExContractPrng(ContractPrng);

/// The 32 bytes that the `pos`-th block request returns, counting from 0, on
/// a generator created from `seed` and `entropy`.
pub uninterp spec fn prng_block_of(seed: Seq<u8>, entropy: Seq<u8>, pos: nat) -> Seq<u8>;

/// A draw generator, with the seed and entropy it was created from and the
/// number of blocks taken from it so far.
pub struct Generator {
    rng: ContractPrng,
    seed: Ghost<Seq<u8>>,
    entropy: Ghost<Seq<u8>>,
    pos: Ghost<nat>,
}

impl Generator {
    pub closed spec fn seed(&self) -> Seq<u8> {
        self.seed@
    }

    pub closed spec fn entropy(&self) -> Seq<u8> {
        self.entropy@
    }

    pub closed spec fn pos(&self) -> nat {
        self.pos@
    }

    /// Relies on ContractPrng::new: a ChaCha stream keyed by SHA-256 of `seed`
    /// then `entropy`, so the stream depends on those bytes alone.
    #[verifier::external_body]
    fn new(seed: &[u8], entropy: &[u8]) -> (r: Generator)
        ensures
            r.seed() == seed@,
            r.entropy() == entropy@,
            r.pos() == 0,
    {
        Generator { rng: ContractPrng::new(seed, entropy), seed: Ghost(seed@), entropy: Ghost(entropy@), pos: Ghost(0) }
    }

    /// Relies on ContractPrng::rand_bytes: the next 32 bytes of the stream,
    /// after which the generator has moved past them.
    #[verifier::external_body]
    fn rand_bytes(&mut self) -> (r: [u8; 32])
        ensures
            r@ == prng_block_of(old(self).seed(), old(self).entropy(), old(self).pos()),
            final(self).seed() == old(self).seed(),
            final(self).entropy() == old(self).entropy(),
            final(self).pos() == old(self).pos() + 1,
    {
        self.pos = Ghost(self.pos@ + 1);
        self.rng.rand_bytes()
    }
}

/// The one-way transform under which the admin secret is stored: base64 of the
/// SHA-256 digest of the UTF-8 bytes of the base64 text of the secret's bytes.
pub open spec fn hashed_key(key: Seq<char>) -> Seq<char> {
    base64_of(sha256_of(encode_utf8(base64_of(encode_utf8(key)))))
}

/// Apply the admin secret transform.
pub fn hash_viewing_key(key: &str) -> (r: String)
    ensures
        r@ == hashed_key(key@),
{
    let inner = base64_encode(key.as_bytes());
    let digest = sha256(inner.as_str().as_bytes());
    base64_encode(digest.as_slice())
}

/// The unsigned integer whose little-endian bytes are the first four of `b`.
pub open spec fn le_u32(b: Seq<u8>) -> u32 {
    (b[0] as int + 256 * b[1] as int + 65536 * b[2] as int + 16777216 * b[3] as int) as u32
}

/// The raw draws of a generator created from `seed` and `entropy`: the first
/// four bytes of each of its first `n` blocks, read little-endian.
pub open spec fn stream_of(seed: Seq<u8>, entropy: Seq<u8>, n: nat) -> Seq<u32> {
    Seq::new(n, |i: int| le_u32(prng_block_of(seed, entropy, i as nat)))
}

/// The next raw draw of the stream: the first four bytes of its next block,
/// read little-endian.
fn next_draw(g: &mut Generator) -> (r: u32)
    ensures
        r == le_u32(prng_block_of(old(g).seed(), old(g).entropy(), old(g).pos())),
        final(g).seed() == old(g).seed(),
        final(g).entropy() == old(g).entropy(),
        final(g).pos() == old(g).pos() + 1,
{
    let b = g.rand_bytes();
    (b[0] as u32) + 256 * (b[1] as u32) + 65536 * (b[2] as u32) + 16777216 * (b[3] as u32)
}

/// Draw `n` raw values from a generator seeded with `seed` and `entropy`.
pub fn draw_stream(seed: &[u8], entropy: &[u8], n: u16) -> (r: Vec<u32>)
    ensures
        r@ == stream_of(seed@, entropy@, n as nat),
{
    let mut g = Generator::new(seed, entropy);
    let mut out: Vec<u32> = Vec::new();
    let mut i: u16 = 0;
    while i < n
        invariant
            i <= n,
            g.seed() == seed@,
            g.entropy() == entropy@,
            g.pos() == i,
            out@ == stream_of(seed@, entropy@, i as nat),
        decreases n - i,
    {
        let d = next_draw(&mut g);
        out.push(d);
        i = i + 1;
        assert(out@ =~= stream_of(seed@, entropy@, i as nat));
    }
    out
}

/// The eight big-endian bytes of `x`.
pub open spec fn be_bytes(x: u64) -> Seq<u8> {
    seq![
        (x / 0x100000000000000) as u8,
        (x / 0x1000000000000 % 256) as u8,
        (x / 0x10000000000 % 256) as u8,
        (x / 0x100000000 % 256) as u8,
        (x / 0x1000000 % 256) as u8,
        (x / 0x10000 % 256) as u8,
        (x / 0x100 % 256) as u8,
        (x % 256) as u8,
    ]
}

fn push_be_bytes(out: &mut Vec<u8>, x: u64)
    ensures
        final(out)@ == old(out)@ + be_bytes(x),
{
    out.push((x / 0x100000000000000) as u8);
    out.push((x / 0x1000000000000 % 256) as u8);
    out.push((x / 0x10000000000 % 256) as u8);
    out.push((x / 0x100000000 % 256) as u8);
    out.push((x / 0x1000000 % 256) as u8);
    out.push((x / 0x10000 % 256) as u8);
    out.push((x / 0x100 % 256) as u8);
    out.push((x % 256) as u8);
    assert(final(out)@ =~= old(out)@ + be_bytes(x));
}

fn push_bytes(out: &mut Vec<u8>, b: &[u8])
    ensures
        final(out)@ == old(out)@ + b@,
{
    let ghost start = out@;
    let mut i: usize = 0;
    while i < b.len()
        invariant
            i <= b@.len(),
            out@ == start + b@.subrange(0, i as int),
        decreases b@.len() - i,
    {
        out.push(b[i]);
        i = i + 1;
        assert(out@ =~= start + b@.subrange(0, i as int));
    }
    assert(b@.subrange(0, i as int) =~= b@);
}

/// Per-call entropy: block height and time (seconds), both big-endian, then
/// the caller's address and the fixed seed.
pub open spec fn entropy_of(height: u64, time: u64, sender: Seq<char>, seed: Seq<u8>) -> Seq<u8> {
    be_bytes(height) + be_bytes(time) + encode_utf8(sender) + seed
}

/// Mix the execution context into the fixed seed.
pub fn extend_entropy(height: u64, time: u64, seed: &[u8], sender: &str) -> (r: Vec<u8>)
    ensures
        r@ == entropy_of(height, time, sender@, seed@),
{
    let mut out: Vec<u8> = Vec::new();
    push_be_bytes(&mut out, height);
    push_be_bytes(&mut out, time);
    push_bytes(&mut out, sender.as_bytes());
    push_bytes(&mut out, seed);
    assert(out@ =~= entropy_of(height, time, sender@, seed@));
    out
}

} // verus!
