//! A growable vector of single bits, with big-endian push and pop of whole
//! machine words.

use vstd::prelude::*;

verus! {

/// A single bit.
#[derive(Debug, Clone, Copy, PartialEq, Eq, Structural)]
pub enum Bit {
    /// Zero
    O,
    /// One
    I,
}

/// The numeric value of a bit.
pub open spec fn bit_val(b: Bit) -> nat {
    match b {
        Bit::O => 0,
        Bit::I => 1,
    }
}

/// Two to the `n`-th power.
pub open spec fn pow2n(n: nat) -> nat
    decreases n,
{
    if n == 0 {
        1
    } else {
        2 * pow2n((n - 1) as nat)
    }
}

/// The value of a bit sequence read most significant bit first.
pub open spec fn bits_val(s: Seq<Bit>) -> nat
    decreases s.len(),
{
    if s.len() == 0 {
        0
    } else {
        bits_val(s.drop_last()) * 2 + bit_val(s.last())
    }
}

/// `n` bits encode a value below two to the `n`-th.
pub proof fn lemma_bits_val_bound(s: Seq<Bit>)
    ensures
        bits_val(s) < pow2n(s.len()),
    decreases s.len(),
{
    if s.len() > 0 {
        lemma_bits_val_bound(s.drop_last());
    }
}

/// The `width` low bits of `v`, most significant first.
pub open spec fn be_bits(v: u32, width: nat) -> Seq<Bit> {
    Seq::new(
        width,
        |i: int|
            if ((v >> ((width - 1 - i) as u32)) & 1) == 1 {
                Bit::I
            } else {
                Bit::O
            },
    )
}

/// Law: the eight bits a byte pushes encode the byte itself, so popping a
/// byte right after pushing one returns it unchanged.
pub proof fn lemma_byte_bits_round_trip(b: u8)
    ensures
        bits_val(be_bits(b as u32, 8)) == b,
{
    let v = b as u32;
    let s = be_bits(v, 8);
    assert forall|k: int| 1 <= k <= 8 implies bits_val(#[trigger] s.take(k)) == bits_val(
        s.take(k - 1),
    ) * 2 + bit_val(s[k - 1]) by {
        assert(s.take(k).drop_last() =~= s.take(k - 1));
        assert(s.take(k).last() == s[k - 1]);
    }
    assert(s.take(0) =~= Seq::<Bit>::empty());
    assert(s.take(8) =~= s);
    let b7 = (v >> 7) & 1;
    let b6 = (v >> 6) & 1;
    let b5 = (v >> 5) & 1;
    let b4 = (v >> 4) & 1;
    let b3 = (v >> 3) & 1;
    let b2 = (v >> 2) & 1;
    let b1 = (v >> 1) & 1;
    let b0 = (v >> 0) & 1;
    assert(((v >> 7) & 1) <= 1 && ((v >> 6) & 1) <= 1 && ((v >> 5) & 1) <= 1 && ((v >> 4) & 1) <= 1
        && ((v >> 3) & 1) <= 1 && ((v >> 2) & 1) <= 1 && ((v >> 1) & 1) <= 1 && ((v >> 0) & 1) <= 1)
        by (bit_vector);
    assert(bit_val(s[0]) == b7 && bit_val(s[1]) == b6 && bit_val(s[2]) == b5 && bit_val(s[3]) == b4
        && bit_val(s[4]) == b3 && bit_val(s[5]) == b2 && bit_val(s[6]) == b1 && bit_val(s[7])
        == b0);
    assert(bits_val(s.take(1)) == b7);
    assert(bits_val(s.take(2)) == b7 * 2 + b6);
    assert(bits_val(s.take(3)) == b7 * 4 + b6 * 2 + b5);
    assert(bits_val(s.take(4)) == b7 * 8 + b6 * 4 + b5 * 2 + b4);
    assert(bits_val(s.take(5)) == b7 * 16 + b6 * 8 + b5 * 4 + b4 * 2 + b3);
    assert(bits_val(s.take(6)) == b7 * 32 + b6 * 16 + b5 * 8 + b4 * 4 + b3 * 2 + b2);
    assert(bits_val(s.take(7)) == b7 * 64 + b6 * 32 + b5 * 16 + b4 * 8 + b3 * 4 + b2 * 2 + b1);
    assert(bits_val(s) == b7 * 128 + b6 * 64 + b5 * 32 + b4 * 16 + b3 * 8 + b2 * 4 + b1 * 2 + b0);
    assert(((v >> 7) & 1) * 128 + ((v >> 6) & 1) * 64 + ((v >> 5) & 1) * 32 + ((v >> 4) & 1) * 16
        + ((v >> 3) & 1) * 8 + ((v >> 2) & 1) * 4 + ((v >> 1) & 1) * 2 + ((v >> 0) & 1) == v)
        by (bit_vector)
        requires
            v < 256,
    ;
}

/// Law: after pushing a byte onto any bit vector, the eight newest bits
/// decode back to that byte and the older bits are untouched — popping
/// right after pushing returns the byte and restores the vector.
pub proof fn lemma_push_pop_u8(s: Seq<Bit>, b: u8)
    ensures
        bits_val((s + be_bits(b as u32, 8)).subrange(s.len() as int, s.len() as int + 8)) == b,
        (s + be_bits(b as u32, 8)).take(s.len() as int) == s,
{
    assert((s + be_bits(b as u32, 8)).subrange(s.len() as int, s.len() as int + 8) =~= be_bits(
        b as u32,
        8,
    ));
    assert((s + be_bits(b as u32, 8)).take(s.len() as int) =~= s);
    lemma_byte_bits_round_trip(b);
}

/// A bit vector. Backed by one `Bit` per entry, which wastes space but
/// keeps the structure easy to work with.
#[derive(Debug, PartialEq, Eq)]
pub struct Bits(pub Vec<Bit>);

impl View for Bits {
    type V = Seq<Bit>;

    open spec fn view(&self) -> Seq<Bit> {
        self.0@
    }
}

impl Bits {
    pub fn new() -> (r: Bits)
        ensures
            r@.len() == 0,
    {
        Bits(Vec::new())
    }

    /// Removes every bit.
    pub fn clear(&mut self)
        ensures
            final(self)@.len() == 0,
    {
        self.0.clear();
    }

    /// The number of bits held.
    pub fn len(&self) -> (n: usize)
        ensures
            n == self@.len(),
    {
        self.0.len()
    }

    /// Appends the `width` low bits of `v`, most significant first (that is
    /// how binary is read).
    fn push_be(&mut self, v: u32, width: u8)
        requires
            width <= 32,
        ensures
            final(self)@ == old(self)@ + be_bits(v, width as nat),
    {
        let ghost prefix = self.0@;
        let mut n: u8 = width;
        while n > 0
            invariant
                n <= width,
                width <= 32,
                self.0@ =~= prefix + be_bits(v, width as nat).take((width - n) as int),
            decreases n,
        {
            n = n - 1;
            let bit = if ((v >> (n as u32)) & 1) == 1 {
                Bit::I
            } else {
                Bit::O
            };
            self.0.push(bit);
            proof {
                assert(be_bits(v, width as nat).take((width - n) as int) =~= be_bits(
                    v,
                    width as nat,
                ).take((width - n - 1) as int).push(bit));
            }
        }
        proof {
            assert(be_bits(v, width as nat).take(width as int) =~= be_bits(v, width as nat));
        }
    }

    /// Appends the eight bits of a byte, most significant first.
    pub fn push_u8(&mut self, byte: u8)
        ensures
            final(self)@ == old(self)@ + be_bits(byte as u32, 8),
    {
        self.push_be(byte as u32, 8);
    }

    /// Appends the sixteen bits of a 16-bit value, most significant first.
    pub fn push_u16(&mut self, val: u16)
        ensures
            final(self)@ == old(self)@ + be_bits(val as u32, 16),
    {
        self.push_be(val as u32, 16);
    }

    /// Appends the thirty-two bits of a 32-bit value, most significant
    /// first.
    pub fn push_u32(&mut self, val: u32)
        ensures
            final(self)@ == old(self)@ + be_bits(val, 32),
    {
        self.push_be(val, 32);
    }

    /// Pops off the most recent 8 bits as a byte, the most recent bit being
    /// the least significant. If fewer than 8 bits are left, returns `None`
    /// and changes nothing.
    pub fn pop_u8(&mut self) -> (r: Option<u8>)
        ensures
            old(self)@.len() < 8 ==> r is None && final(self)@ == old(self)@,
            old(self)@.len() >= 8 ==> {
                &&& r is Some
                &&& r->0 as nat == bits_val(
                    old(self)@.subrange(old(self)@.len() - 8, old(self)@.len() as int),
                )
                &&& final(self)@ == old(self)@.take(old(self)@.len() - 8)
            },
    {
        let len = self.0.len();
        if len < 8 {
            return None;
        }
        let ghost tail = self.0@.subrange(len - 8, len as int);
        let mut byte: u8 = 0;
        let mut j: usize = 0;
        while j < 8
            invariant
                j <= 8,
                len == self.0@.len(),
                len >= 8,
                tail == self.0@.subrange(len - 8, len as int),
                byte as nat == bits_val(tail.take(j as int)),
            decreases 8 - j,
        {
            proof {
                lemma_bits_val_bound(tail.take(j as int));
                reveal_with_fuel(pow2n, 9);
                assert(tail.take(j as int + 1).drop_last() =~= tail.take(j as int));
            }
            let bit: u8 = match self.0[len - 8 + j] {
                Bit::O => 0,
                Bit::I => 1,
            };
            byte = byte * 2 + bit;
            j = j + 1;
        }
        proof {
            assert(tail.take(8) =~= tail);
        }
        // Drop these bits from the structure.
        self.0.truncate(len - 8);
        Some(byte)
    }
}

} // verus!
