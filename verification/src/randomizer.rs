//! The generator behind the banner probe: an eight-bit xorshift register and
//! the folding of its output into printable ASCII.

use vstd::prelude::*;

verus! {

/// Number of generated bytes in one probe.
pub const PROBE_LEN: usize = 5;

/// Lowest printable ASCII byte (space).
pub const PRINTABLE_MIN: u8 = 0x20;

/// Highest printable ASCII byte (tilde).
pub const PRINTABLE_MAX: u8 = 0x7e;

/// Number of printable ASCII bytes.
pub const PRINTABLE_SPAN: u8 = 95;

/// One round of the register: three shift-and-xor steps on eight bits.
pub open spec fn xorshift(state: u8) -> u8 {
    let a: u8 = state ^ (state << 7u8);
    let b: u8 = a ^ (a >> 5u8);
    b ^ (b << 3u8)
}

/// The register after `rounds` rounds, starting from `seed`.
pub open spec fn state_after(seed: u8, rounds: nat) -> u8
    decreases rounds,
{
    if rounds == 0 {
        seed
    } else {
        xorshift(state_after(seed, (rounds - 1) as nat))
    }
}

/// A register output folded into the printable range: its upper seven bits,
/// reduced modulo the number of printable bytes, counted from space.
pub open spec fn printable(raw: u8) -> u8 {
    (PRINTABLE_MIN + (raw / 2) % PRINTABLE_SPAN) as u8
}

/// Whether `byte` is printable ASCII.
pub open spec fn is_printable(byte: u8) -> bool {
    PRINTABLE_MIN <= byte <= PRINTABLE_MAX
}

/// The probe that a generator in state `seed` produces: byte `i` comes from
/// the register after `i + 1` rounds.
pub open spec fn probe_bytes(seed: u8) -> Seq<u8> {
    Seq::new(PROBE_LEN as nat, |i: int| printable(state_after(seed, (i + 1) as nat)))
}

/// Draws one byte from `rand::random`, the thread-local generator of the `rand`
/// crate. Nothing is claimed of the byte: it may differ from call to call.
#[verifier::external_body]
fn random_seed() -> u8 {
    rand::random::<u8>()
}

/// A small pseudo-random generator. It is not cryptographic; it only serves to
/// vary the probes sent to listeners.
#[derive(Clone, Copy, Debug)]
pub struct Rand {
    state: u8,
}

impl View for Rand {
    type V = u8;

    /// The register's current content.
    closed spec fn view(&self) -> u8 {
        self.state
    }
}

impl Rand {
    /// A generator seeded from the operating system's entropy.
    pub fn new() -> (r: Self) {
        Rand::from_seed(random_seed())
    }

    /// A generator that starts from `seed`.
    pub fn from_seed(seed: u8) -> (r: Self)
        ensures
            r@ == seed,
    {
        Rand { state: seed }
    }

    /// The register's current content.
    pub fn state(&self) -> (s: u8)
        ensures
            s == self@,
    {
        self.state
    }

    /// Advances the register by one round and returns its new content.
    pub fn next(&mut self) -> (out: u8)
        ensures
            out == xorshift(old(self)@),
            final(self)@ == out,
    {
        let s0: u8 = self.state;
        let s1: u8 = s0 ^ (s0 << 7u8);
        let s2: u8 = s1 ^ (s1 >> 5u8);
        let s3: u8 = s2 ^ (s2 << 3u8);
        self.state = s3;
        s3
    }

    /// Advances the register by one round and folds the output into printable
    /// ASCII.
    pub fn next_printable(&mut self) -> (out: u8)
        ensures
            out == printable(xorshift(old(self)@)),
            final(self)@ == xorshift(old(self)@),
            is_printable(out),
    {
        let raw: u8 = self.next();
        PRINTABLE_MIN + (raw / 2) % PRINTABLE_SPAN
    }

    /// Produces one probe of `PROBE_LEN` printable bytes, advancing the register
    /// once per byte.
    pub fn probe(&mut self) -> (bytes: Vec<u8>)
        ensures
            bytes@ == probe_bytes(old(self)@),
            final(self)@ == state_after(old(self)@, PROBE_LEN as nat),
            forall|i: int| 0 <= i < bytes@.len() ==> is_printable(#[trigger] bytes@[i]),
    {
        let ghost seed: u8 = self@;
        let mut bytes: Vec<u8> = Vec::with_capacity(PROBE_LEN);
        let mut produced: usize = 0;
        while produced < PROBE_LEN
            invariant
                produced <= PROBE_LEN,
                bytes@.len() == produced,
                self@ == state_after(seed, produced as nat),
                forall|i: int|
                    0 <= i < produced ==> #[trigger] bytes@[i] == printable(
                        state_after(seed, (i + 1) as nat),
                    ),
            decreases PROBE_LEN - produced,
        {
            let byte: u8 = self.next_printable();
            bytes.push(byte);
            produced = produced + 1;
        }
        assert(bytes@ =~= probe_bytes(seed));
        bytes
    }
}

/// A round of the register loses nothing: different states lead to different
/// states, and only the zero state leads to zero. A generator that starts
/// from a nonzero seed therefore never gets stuck.
pub proof fn lemma_xorshift_is_injective(a: u8, b: u8)
    ensures
        xorshift(a) == xorshift(b) ==> a == b,
        xorshift(a) == 0 <==> a == 0,
{
    assert(xorshift(a) == xorshift(b) ==> a == b) by (bit_vector);
    assert(xorshift(a) == 0 <==> a == 0) by (bit_vector);
}

/// Every byte of every probe is printable ASCII.
pub proof fn lemma_probe_is_printable(seed: u8)
    ensures
        probe_bytes(seed).len() == PROBE_LEN,
        forall|i: int| 0 <= i < PROBE_LEN ==> is_printable(#[trigger] probe_bytes(seed)[i]),
{
}

} // verus!
