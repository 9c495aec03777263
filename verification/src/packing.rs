//! Packing and unpacking of data sent over a network or a serial line.
//!
//! Integers are packed in big-endian byte order; signed integers in two's
//! complement.

use vstd::prelude::*;

verus! {

/// An error from attempting to pack data into a buffer or from attempting
/// to unpack data from a slice.
#[derive(Clone, Copy, Debug, PartialEq, Eq, Structural)]
pub enum PackingError {
    /// The buffer to pack into or unpack from is too small for the data.
    InvalidBufferSize,
}

/// Trait implemented by data to be sent over network boundaries.
pub trait Packable: Sized {
    /// The minimum length of a buffer to pack this data into.
    fn len() -> usize;

    /// Pack this piece of data into the front of the given buffer; the
    /// buffer keeps its length, as a slice always does.
    fn pack(self, buffer: &mut [u8]) -> (r: Result<(), PackingError>)
        ensures
            final(buffer)@.len() == old(buffer)@.len();

    /// Unpack a piece of data from the front of the given bytes.
    fn unpack(data: &[u8]) -> Result<Self, PackingError>;
}

/// 256 to the power `n`: the number of values that fit in `n` bytes.
pub open spec fn pow256(n: nat) -> nat
    decreases n,
{
    if n == 0 { 1 } else { 256 * pow256((n - 1) as nat) }
}

/// The `n` low bytes of `x`, most significant first.
pub open spec fn be_bytes(x: nat, n: nat) -> Seq<u8>
    decreases n,
{
    if n == 0 {
        Seq::empty()
    } else {
        be_bytes(x / 256, (n - 1) as nat).push((x % 256) as u8)
    }
}

/// The number whose bytes, most significant first, are `s`.
pub open spec fn be_value(s: Seq<u8>) -> nat
    decreases s.len(),
{
    if s.len() == 0 {
        0
    } else {
        be_value(s.drop_last()) * 256 + s.last() as nat
    }
}

/// The two's complement of `x` in `n` bytes, as an unsigned number.
pub open spec fn twos_complement(x: int, n: nat) -> nat {
    if x >= 0 { x as nat } else { (x + pow256(n)) as nat }
}

/// The signed number whose two's complement in `n` bytes is `v`.
pub open spec fn from_twos_complement(v: nat, n: nat) -> int {
    if v >= pow256(n) / 2 { v - pow256(n) } else { v as int }
}

/// The bytes a packed integer occupies at the front of a buffer.
pub open spec fn packed(buffer: Seq<u8>, bytes: Seq<u8>) -> Seq<u8> {
    bytes + buffer.skip(bytes.len() as int)
}

pub proof fn lemma_pow256_positive(n: nat)
    ensures
        pow256(n) >= 1,
    decreases n,
{
    if n > 0 {
        lemma_pow256_positive((n - 1) as nat);
    }
}

pub proof fn lemma_pow256_even(n: nat)
    requires
        n > 0,
    ensures
        pow256(n) % 2 == 0,
        pow256(n) == 256 * pow256((n - 1) as nat),
{
    lemma_pow256_positive((n - 1) as nat);
}

/// The bytes of `x` have the requested length.
pub proof fn lemma_be_bytes_len(x: nat, n: nat)
    ensures
        be_bytes(x, n).len() == n,
    decreases n,
{
    if n > 0 {
        lemma_be_bytes_len(x / 256, (n - 1) as nat);
    }
}

/// A number of `n` bytes is below `256^n`.
pub proof fn lemma_be_value_bound(s: Seq<u8>)
    ensures
        be_value(s) < pow256(s.len()),
    decreases s.len(),
{
    if s.len() > 0 {
        let t = s.drop_last();
        lemma_be_value_bound(t);
        let a = be_value(t);
        let p = pow256(t.len());
        let b = s.last() as nat;
        assert(a * 256 + b < 256 * p) by (nonlinear_arith)
            requires
                a < p,
                b < 256,
        ;
    }
}

/// Reading the bytes of a number below `256^n` gives the number back.
pub proof fn lemma_be_value_of_bytes(x: nat, n: nat)
    requires
        x < pow256(n),
    ensures
        be_value(be_bytes(x, n)) == x,
    decreases n,
{
    if n > 0 {
        let p = pow256((n - 1) as nat);
        assert(x / 256 < p) by (nonlinear_arith)
            requires
                x < 256 * p,
        ;
        lemma_be_value_of_bytes(x / 256, (n - 1) as nat);
        let b = be_bytes(x, n);
        assert(b.drop_last() =~= be_bytes(x / 256, (n - 1) as nat));
    }
}

/// Writing the number that bytes denote gives the bytes back.
pub proof fn lemma_bytes_of_be_value(s: Seq<u8>)
    ensures
        be_bytes(be_value(s), s.len()) == s,
    decreases s.len(),
{
    if s.len() > 0 {
        let t = s.drop_last();
        lemma_bytes_of_be_value(t);
        let v = be_value(s);
        assert(v / 256 == be_value(t));
        assert(v % 256 == s.last() as nat);
        assert(be_bytes(v, s.len()) =~= s);
    }
}

/// The two's complement of a number in range reads back as the number.
pub proof fn lemma_twos_complement_round_trip(x: int, n: nat)
    requires
        n > 0,
        -(pow256(n) / 2) <= x < pow256(n) / 2,
    ensures
        twos_complement(x, n) < pow256(n),
        from_twos_complement(twos_complement(x, n), n) == x,
{
    lemma_pow256_even(n);
}

/// Unpacking what was packed into a buffer gives the packed number back:
/// the front `n` bytes of `be_bytes(x, n) + rest` denote `x`.
pub proof fn lemma_unpack_after_pack(x: nat, n: nat, rest: Seq<u8>)
    requires
        x < pow256(n),
    ensures
        be_value((be_bytes(x, n) + rest).take(n as int)) == x,
{
    lemma_be_bytes_len(x, n);
    assert((be_bytes(x, n) + rest).take(n as int) =~= be_bytes(x, n));
    lemma_be_value_of_bytes(x, n);
}

/// Packing an unsigned integer into a buffer and unpacking the buffer
/// gives the integer back, and the buffer keeps its length.
pub proof fn lemma_unsigned_round_trip(x: nat, n: nat, buffer: Seq<u8>)
    requires
        x < pow256(n),
        n <= buffer.len(),
    ensures
        packed(buffer, be_bytes(x, n)).len() == buffer.len(),
        be_value(packed(buffer, be_bytes(x, n)).take(n as int)) == x,
{
    lemma_be_bytes_len(x, n);
    lemma_unpack_after_pack(x, n, buffer.skip(n as int));
}

/// Packing a signed integer into a buffer and unpacking the buffer gives
/// the integer back, and the buffer keeps its length.
pub proof fn lemma_signed_round_trip(x: int, n: nat, buffer: Seq<u8>)
    requires
        n > 0,
        -(pow256(n) / 2) <= x < pow256(n) / 2,
        n <= buffer.len(),
    ensures
        packed(buffer, be_bytes(twos_complement(x, n), n)).len() == buffer.len(),
        from_twos_complement(be_value(packed(buffer, be_bytes(twos_complement(x, n), n)).take(n as int)), n) == x,
{
    lemma_twos_complement_round_trip(x, n);
    lemma_unsigned_round_trip(twos_complement(x, n), n, buffer);
}

/// Write the `width` low bytes of `value`, most significant first, into the
/// front of `buffer`; the rest of the buffer is left as it was.
pub fn write_be(value: u128, width: usize, buffer: &mut [u8])
    requires
        width <= old(buffer)@.len(),
    ensures
        final(buffer)@ == packed(old(buffer)@, be_bytes(value as nat, width as nat)),
        final(buffer)@.len() == old(buffer)@.len(),
{
    proof {
        lemma_be_bytes_len(value as nat, width as nat);
    }
    let ghost initial = buffer@;
    let ghost full = be_bytes(value as nat, width as nat);
    let mut v: u128 = value;
    let mut i: usize = width;
    while i > 0
        invariant
            0 <= i <= width,
            width <= buffer@.len(),
            buffer@.len() == initial.len(),
            full.len() == width,
            full == be_bytes(v as nat, i as nat) + buffer@.subrange(i as int, width as int),
            buffer@.skip(width as int) == initial.skip(width as int),
        decreases i,
    {
        proof {
            lemma_be_bytes_len(v as nat, i as nat);
            lemma_be_bytes_len((v / 256) as nat, (i - 1) as nat);
        }
        let ghost before = buffer@;
        let byte = (v % 256) as u8;
        buffer[i - 1] = byte;
        assert(buffer@ == before.update(i - 1, byte));
        assert(be_bytes(v as nat, i as nat) == be_bytes((v / 256) as nat, (i - 1) as nat).push(byte));
        assert(buffer@.subrange(i - 1, width as int) =~= seq![byte] + before.subrange(i as int, width as int));
        assert(be_bytes(v as nat, i as nat) + before.subrange(i as int, width as int)
            =~= be_bytes((v / 256) as nat, (i - 1) as nat) + buffer@.subrange(i - 1, width as int));
        assert(buffer@.skip(width as int) =~= before.skip(width as int));
        v = v / 256;
        i = i - 1;
    }
    assert(be_bytes(v as nat, 0) =~= Seq::<u8>::empty());
    assert(buffer@ =~= full + initial.skip(width as int)) by {
        assert(buffer@.subrange(0, width as int) =~= full);
        assert(buffer@ =~= buffer@.subrange(0, width as int) + buffer@.skip(width as int));
    }
}

/// Read the number whose bytes, most significant first, are the first
/// `width` bytes of `data`.
pub fn read_be(data: &[u8], width: usize) -> (r: u128)
    requires
        width <= 16,
        width <= data@.len(),
    ensures
        r as nat == be_value(data@.take(width as int)),
{
    let mut v: u128 = 0;
    let mut i: usize = 0;
    while i < width
        invariant
            0 <= i <= width,
            width <= 16,
            width <= data@.len(),
            v as nat == be_value(data@.take(i as int)),
        decreases width - i,
    {
        proof {
            lemma_be_value_bound(data@.take(i as int));
            lemma_pow256_bound(i as nat);
            assert(data@.take(i + 1).drop_last() =~= data@.take(i as int));
        }
        let b = data[i];
        assert((v as nat) * 256 + (b as nat) < 0x1_0000_0000_0000_0000_0000_0000_0000_0000) by (nonlinear_arith)
            requires
                (v as nat) < pow256(i as nat),
                pow256(i as nat) * 256 <= 0x1_0000_0000_0000_0000_0000_0000_0000_0000,
                (b as nat) < 256,
        ;
        v = v * 256 + b as u128;
        i = i + 1;
    }
    v
}

/// 256 to the power of at most 15, times 256, fits in 128 bits.
proof fn lemma_pow256_bound(i: nat)
    requires
        i < 16,
    ensures
        pow256(i) * 256 <= 0x1_0000_0000_0000_0000_0000_0000_0000_0000,
{
    lemma_pow256_monotonic(i, 15);
    assert(pow256(15) == 0x1000000000000000000000000000000) by {
        assert(pow256(0) == 0x1);
        assert(pow256(1) == 0x100);
        assert(pow256(2) == 0x10000);
        assert(pow256(3) == 0x1000000);
        assert(pow256(4) == 0x100000000);
        assert(pow256(5) == 0x10000000000);
        assert(pow256(6) == 0x1000000000000);
        assert(pow256(7) == 0x100000000000000);
        assert(pow256(8) == 0x10000000000000000);
        assert(pow256(9) == 0x1000000000000000000);
        assert(pow256(10) == 0x100000000000000000000);
        assert(pow256(11) == 0x10000000000000000000000);
        assert(pow256(12) == 0x1000000000000000000000000);
        assert(pow256(13) == 0x100000000000000000000000000);
        assert(pow256(14) == 0x10000000000000000000000000000);
        assert(pow256(15) == 0x1000000000000000000000000000000);
    }
}

/// Powers of 256 grow with the exponent.
proof fn lemma_pow256_monotonic(i: nat, j: nat)
    requires
        i <= j,
    ensures
        pow256(i) <= pow256(j),
    decreases j,
{
    if i < j {
        lemma_pow256_monotonic(i, (j - 1) as nat);
        lemma_pow256_positive((j - 1) as nat);
    }
}


/// The powers of 256 that the integer widths use.
pub proof fn lemma_pow256_values()
    ensures
        pow256(0) == 0x1,
        pow256(1) == 0x100,
        pow256(2) == 0x10000,
        pow256(3) == 0x1000000,
        pow256(4) == 0x100000000,
        pow256(5) == 0x10000000000,
        pow256(6) == 0x1000000000000,
        pow256(7) == 0x100000000000000,
        pow256(8) == 0x10000000000000000,
        pow256(9) == 0x1000000000000000000,
        pow256(10) == 0x100000000000000000000,
        pow256(11) == 0x10000000000000000000000,
        pow256(12) == 0x1000000000000000000000000,
        pow256(13) == 0x100000000000000000000000000,
        pow256(14) == 0x10000000000000000000000000000,
        pow256(15) == 0x1000000000000000000000000000000,
        pow256(16) == 0x100000000000000000000000000000000,
{
    assert(pow256(0) == 0x1);
    assert(pow256(1) == 0x100);
    assert(pow256(2) == 0x10000);
    assert(pow256(3) == 0x1000000);
    assert(pow256(4) == 0x100000000);
    assert(pow256(5) == 0x10000000000);
    assert(pow256(6) == 0x1000000000000);
    assert(pow256(7) == 0x100000000000000);
    assert(pow256(8) == 0x10000000000000000);
    assert(pow256(9) == 0x1000000000000000000);
    assert(pow256(10) == 0x100000000000000000000);
    assert(pow256(11) == 0x10000000000000000000000);
    assert(pow256(12) == 0x1000000000000000000000000);
    assert(pow256(13) == 0x100000000000000000000000000);
    assert(pow256(14) == 0x10000000000000000000000000000);
    assert(pow256(15) == 0x1000000000000000000000000000000);
    assert(pow256(16) == 0x100000000000000000000000000000000);
}

impl Packable for u8 {
    /// A `u8` takes 1 byte(s).
    fn len() -> (n: usize)
        ensures
            n == 1,
    {
        1
    }

    /// Pack the value, most significant byte first, into the first 1
    /// byte(s) of the buffer.
    fn pack(self, buffer: &mut [u8]) -> (r: Result<(), PackingError>)
        ensures
            old(buffer)@.len() < 1 ==> r == Err::<(), PackingError>(PackingError::InvalidBufferSize)
                && final(buffer)@ == old(buffer)@,
            old(buffer)@.len() >= 1 ==> r == Ok::<(), PackingError>(())
                && final(buffer)@ == packed(old(buffer)@, be_bytes(self as nat, 1)),
    {
        if buffer.len() < 1 {
            return Err(PackingError::InvalidBufferSize);
        }
        write_be(self as u128, 1, buffer);
        Ok(())
    }

    /// Unpack a value from its first 1 byte(s), most significant first.
    fn unpack(data: &[u8]) -> (r: Result<u8, PackingError>)
        ensures
            data@.len() < 1 ==> r == Err::<u8, PackingError>(PackingError::InvalidBufferSize),
            data@.len() >= 1 ==> (r matches Ok(v) && v as nat == be_value(data@.take(1))),
    {
        if data.len() < 1 {
            return Err(PackingError::InvalidBufferSize);
        }
        let v = read_be(data, 1);
        proof {
            lemma_be_value_bound(data@.take(1));
            lemma_pow256_values();
        }
        Ok((v as u8))
    }
}

impl Packable for u16 {
    /// A `u16` takes 2 byte(s).
    fn len() -> (n: usize)
        ensures
            n == 2,
    {
        2
    }

    /// Pack the value, most significant byte first, into the first 2
    /// byte(s) of the buffer.
    fn pack(self, buffer: &mut [u8]) -> (r: Result<(), PackingError>)
        ensures
            old(buffer)@.len() < 2 ==> r == Err::<(), PackingError>(PackingError::InvalidBufferSize)
                && final(buffer)@ == old(buffer)@,
            old(buffer)@.len() >= 2 ==> r == Ok::<(), PackingError>(())
                && final(buffer)@ == packed(old(buffer)@, be_bytes(self as nat, 2)),
    {
        if buffer.len() < 2 {
            return Err(PackingError::InvalidBufferSize);
        }
        write_be(self as u128, 2, buffer);
        Ok(())
    }

    /// Unpack a value from its first 2 byte(s), most significant first.
    fn unpack(data: &[u8]) -> (r: Result<u16, PackingError>)
        ensures
            data@.len() < 2 ==> r == Err::<u16, PackingError>(PackingError::InvalidBufferSize),
            data@.len() >= 2 ==> (r matches Ok(v) && v as nat == be_value(data@.take(2))),
    {
        if data.len() < 2 {
            return Err(PackingError::InvalidBufferSize);
        }
        let v = read_be(data, 2);
        proof {
            lemma_be_value_bound(data@.take(2));
            lemma_pow256_values();
        }
        Ok((v as u16))
    }
}

impl Packable for u32 {
    /// A `u32` takes 4 byte(s).
    fn len() -> (n: usize)
        ensures
            n == 4,
    {
        4
    }

    /// Pack the value, most significant byte first, into the first 4
    /// byte(s) of the buffer.
    fn pack(self, buffer: &mut [u8]) -> (r: Result<(), PackingError>)
        ensures
            old(buffer)@.len() < 4 ==> r == Err::<(), PackingError>(PackingError::InvalidBufferSize)
                && final(buffer)@ == old(buffer)@,
            old(buffer)@.len() >= 4 ==> r == Ok::<(), PackingError>(())
                && final(buffer)@ == packed(old(buffer)@, be_bytes(self as nat, 4)),
    {
        if buffer.len() < 4 {
            return Err(PackingError::InvalidBufferSize);
        }
        write_be(self as u128, 4, buffer);
        Ok(())
    }

    /// Unpack a value from its first 4 byte(s), most significant first.
    fn unpack(data: &[u8]) -> (r: Result<u32, PackingError>)
        ensures
            data@.len() < 4 ==> r == Err::<u32, PackingError>(PackingError::InvalidBufferSize),
            data@.len() >= 4 ==> (r matches Ok(v) && v as nat == be_value(data@.take(4))),
    {
        if data.len() < 4 {
            return Err(PackingError::InvalidBufferSize);
        }
        let v = read_be(data, 4);
        proof {
            lemma_be_value_bound(data@.take(4));
            lemma_pow256_values();
        }
        Ok((v as u32))
    }
}

impl Packable for u64 {
    /// A `u64` takes 8 byte(s).
    fn len() -> (n: usize)
        ensures
            n == 8,
    {
        8
    }

    /// Pack the value, most significant byte first, into the first 8
    /// byte(s) of the buffer.
    fn pack(self, buffer: &mut [u8]) -> (r: Result<(), PackingError>)
        ensures
            old(buffer)@.len() < 8 ==> r == Err::<(), PackingError>(PackingError::InvalidBufferSize)
                && final(buffer)@ == old(buffer)@,
            old(buffer)@.len() >= 8 ==> r == Ok::<(), PackingError>(())
                && final(buffer)@ == packed(old(buffer)@, be_bytes(self as nat, 8)),
    {
        if buffer.len() < 8 {
            return Err(PackingError::InvalidBufferSize);
        }
        write_be(self as u128, 8, buffer);
        Ok(())
    }

    /// Unpack a value from its first 8 byte(s), most significant first.
    fn unpack(data: &[u8]) -> (r: Result<u64, PackingError>)
        ensures
            data@.len() < 8 ==> r == Err::<u64, PackingError>(PackingError::InvalidBufferSize),
            data@.len() >= 8 ==> (r matches Ok(v) && v as nat == be_value(data@.take(8))),
    {
        if data.len() < 8 {
            return Err(PackingError::InvalidBufferSize);
        }
        let v = read_be(data, 8);
        proof {
            lemma_be_value_bound(data@.take(8));
            lemma_pow256_values();
        }
        Ok((v as u64))
    }
}

impl Packable for u128 {
    /// A `u128` takes 16 byte(s).
    fn len() -> (n: usize)
        ensures
            n == 16,
    {
        16
    }

    /// Pack the value, most significant byte first, into the first 16
    /// byte(s) of the buffer.
    fn pack(self, buffer: &mut [u8]) -> (r: Result<(), PackingError>)
        ensures
            old(buffer)@.len() < 16 ==> r == Err::<(), PackingError>(PackingError::InvalidBufferSize)
                && final(buffer)@ == old(buffer)@,
            old(buffer)@.len() >= 16 ==> r == Ok::<(), PackingError>(())
                && final(buffer)@ == packed(old(buffer)@, be_bytes(self as nat, 16)),
    {
        if buffer.len() < 16 {
            return Err(PackingError::InvalidBufferSize);
        }
        write_be(self as u128, 16, buffer);
        Ok(())
    }

    /// Unpack a value from its first 16 byte(s), most significant first.
    fn unpack(data: &[u8]) -> (r: Result<u128, PackingError>)
        ensures
            data@.len() < 16 ==> r == Err::<u128, PackingError>(PackingError::InvalidBufferSize),
            data@.len() >= 16 ==> (r matches Ok(v) && v as nat == be_value(data@.take(16))),
    {
        if data.len() < 16 {
            return Err(PackingError::InvalidBufferSize);
        }
        let v = read_be(data, 16);
        proof {
            lemma_be_value_bound(data@.take(16));
            lemma_pow256_values();
        }
        Ok((v as u128))
    }
}

impl Packable for usize {
    /// A `usize` takes 8 byte(s).
    fn len() -> (n: usize)
        ensures
            n == 8,
    {
        8
    }

    /// Pack the value, most significant byte first, into the first 8
    /// byte(s) of the buffer.
    fn pack(self, buffer: &mut [u8]) -> (r: Result<(), PackingError>)
        ensures
            old(buffer)@.len() < 8 ==> r == Err::<(), PackingError>(PackingError::InvalidBufferSize)
                && final(buffer)@ == old(buffer)@,
            old(buffer)@.len() >= 8 ==> r == Ok::<(), PackingError>(())
                && final(buffer)@ == packed(old(buffer)@, be_bytes(self as nat, 8)),
    {
        if buffer.len() < 8 {
            return Err(PackingError::InvalidBufferSize);
        }
        write_be(self as u128, 8, buffer);
        Ok(())
    }

    /// Unpack a value from its first 8 byte(s), most significant first.
    fn unpack(data: &[u8]) -> (r: Result<usize, PackingError>)
        ensures
            data@.len() < 8 ==> r == Err::<usize, PackingError>(PackingError::InvalidBufferSize),
            data@.len() >= 8 ==> (r matches Ok(v) && v == (be_value(data@.take(8)) as usize)),
    {
        if data.len() < 8 {
            return Err(PackingError::InvalidBufferSize);
        }
        let v = read_be(data, 8);
        Ok(#[verifier::truncate] (v as usize))
    }
}

impl Packable for i8 {
    /// An `i8` takes 1 byte(s).
    fn len() -> (n: usize)
        ensures
            n == 1,
    {
        1
    }

    /// Pack the value's two's complement, most significant byte first, into
    /// the first 1 byte(s) of the buffer.
    fn pack(self, buffer: &mut [u8]) -> (r: Result<(), PackingError>)
        ensures
            old(buffer)@.len() < 1 ==> r == Err::<(), PackingError>(PackingError::InvalidBufferSize)
                && final(buffer)@ == old(buffer)@,
            old(buffer)@.len() >= 1 ==> r == Ok::<(), PackingError>(())
                && final(buffer)@ == packed(old(buffer)@, be_bytes(twos_complement(self as int, 1), 1)),
    {
        if buffer.len() < 1 {
            return Err(PackingError::InvalidBufferSize);
        }
        let u = self as u8;
        proof {
            let s = self;
            assert(s >= 0 ==> (s as u8) as int == s as int) by (bit_vector);
            assert(s < 0 ==> (s as u8) as int == s as int + 0x100) by (bit_vector);
            lemma_pow256_values();
        }
        write_be(u as u128, 1, buffer);
        Ok(())
    }

    /// Unpack a value from the two's complement in its first 1 byte(s),
    /// most significant first.
    fn unpack(data: &[u8]) -> (r: Result<i8, PackingError>)
        ensures
            data@.len() < 1 ==> r == Err::<i8, PackingError>(PackingError::InvalidBufferSize),
            data@.len() >= 1 ==> (r matches Ok(v) && v as int == from_twos_complement(be_value(data@.take(1)), 1)),
    {
        if data.len() < 1 {
            return Err(PackingError::InvalidBufferSize);
        }
        let v = read_be(data, 1);
        let u = v as u8;
        proof {
            lemma_be_value_bound(data@.take(1));
            lemma_pow256_values();
            assert(u >= 0x80 ==> (u as i8) as int == u as int - 0x100) by (bit_vector);
            assert(u < 0x80 ==> (u as i8) as int == u as int) by (bit_vector);
        }
        Ok(u as i8)
    }
}

impl Packable for i16 {
    /// An `i16` takes 2 byte(s).
    fn len() -> (n: usize)
        ensures
            n == 2,
    {
        2
    }

    /// Pack the value's two's complement, most significant byte first, into
    /// the first 2 byte(s) of the buffer.
    fn pack(self, buffer: &mut [u8]) -> (r: Result<(), PackingError>)
        ensures
            old(buffer)@.len() < 2 ==> r == Err::<(), PackingError>(PackingError::InvalidBufferSize)
                && final(buffer)@ == old(buffer)@,
            old(buffer)@.len() >= 2 ==> r == Ok::<(), PackingError>(())
                && final(buffer)@ == packed(old(buffer)@, be_bytes(twos_complement(self as int, 2), 2)),
    {
        if buffer.len() < 2 {
            return Err(PackingError::InvalidBufferSize);
        }
        let u = self as u16;
        proof {
            let s = self;
            assert(s >= 0 ==> (s as u16) as int == s as int) by (bit_vector);
            assert(s < 0 ==> (s as u16) as int == s as int + 0x10000) by (bit_vector);
            lemma_pow256_values();
        }
        write_be(u as u128, 2, buffer);
        Ok(())
    }

    /// Unpack a value from the two's complement in its first 2 byte(s),
    /// most significant first.
    fn unpack(data: &[u8]) -> (r: Result<i16, PackingError>)
        ensures
            data@.len() < 2 ==> r == Err::<i16, PackingError>(PackingError::InvalidBufferSize),
            data@.len() >= 2 ==> (r matches Ok(v) && v as int == from_twos_complement(be_value(data@.take(2)), 2)),
    {
        if data.len() < 2 {
            return Err(PackingError::InvalidBufferSize);
        }
        let v = read_be(data, 2);
        let u = v as u16;
        proof {
            lemma_be_value_bound(data@.take(2));
            lemma_pow256_values();
            assert(u >= 0x8000 ==> (u as i16) as int == u as int - 0x10000) by (bit_vector);
            assert(u < 0x8000 ==> (u as i16) as int == u as int) by (bit_vector);
        }
        Ok(u as i16)
    }
}

impl Packable for i32 {
    /// An `i32` takes 4 byte(s).
    fn len() -> (n: usize)
        ensures
            n == 4,
    {
        4
    }

    /// Pack the value's two's complement, most significant byte first, into
    /// the first 4 byte(s) of the buffer.
    fn pack(self, buffer: &mut [u8]) -> (r: Result<(), PackingError>)
        ensures
            old(buffer)@.len() < 4 ==> r == Err::<(), PackingError>(PackingError::InvalidBufferSize)
                && final(buffer)@ == old(buffer)@,
            old(buffer)@.len() >= 4 ==> r == Ok::<(), PackingError>(())
                && final(buffer)@ == packed(old(buffer)@, be_bytes(twos_complement(self as int, 4), 4)),
    {
        if buffer.len() < 4 {
            return Err(PackingError::InvalidBufferSize);
        }
        let u = self as u32;
        proof {
            let s = self;
            assert(s >= 0 ==> (s as u32) as int == s as int) by (bit_vector);
            assert(s < 0 ==> (s as u32) as int == s as int + 0x100000000) by (bit_vector);
            lemma_pow256_values();
        }
        write_be(u as u128, 4, buffer);
        Ok(())
    }

    /// Unpack a value from the two's complement in its first 4 byte(s),
    /// most significant first.
    fn unpack(data: &[u8]) -> (r: Result<i32, PackingError>)
        ensures
            data@.len() < 4 ==> r == Err::<i32, PackingError>(PackingError::InvalidBufferSize),
            data@.len() >= 4 ==> (r matches Ok(v) && v as int == from_twos_complement(be_value(data@.take(4)), 4)),
    {
        if data.len() < 4 {
            return Err(PackingError::InvalidBufferSize);
        }
        let v = read_be(data, 4);
        let u = v as u32;
        proof {
            lemma_be_value_bound(data@.take(4));
            lemma_pow256_values();
            assert(u >= 0x80000000 ==> (u as i32) as int == u as int - 0x100000000) by (bit_vector);
            assert(u < 0x80000000 ==> (u as i32) as int == u as int) by (bit_vector);
        }
        Ok(u as i32)
    }
}

impl Packable for i64 {
    /// An `i64` takes 8 byte(s).
    fn len() -> (n: usize)
        ensures
            n == 8,
    {
        8
    }

    /// Pack the value's two's complement, most significant byte first, into
    /// the first 8 byte(s) of the buffer.
    fn pack(self, buffer: &mut [u8]) -> (r: Result<(), PackingError>)
        ensures
            old(buffer)@.len() < 8 ==> r == Err::<(), PackingError>(PackingError::InvalidBufferSize)
                && final(buffer)@ == old(buffer)@,
            old(buffer)@.len() >= 8 ==> r == Ok::<(), PackingError>(())
                && final(buffer)@ == packed(old(buffer)@, be_bytes(twos_complement(self as int, 8), 8)),
    {
        if buffer.len() < 8 {
            return Err(PackingError::InvalidBufferSize);
        }
        let u = self as u64;
        proof {
            let s = self;
            assert(s >= 0 ==> (s as u64) as int == s as int) by (bit_vector);
            assert(s < 0 ==> (s as u64) as int == s as int + 0x10000000000000000) by (bit_vector);
            lemma_pow256_values();
        }
        write_be(u as u128, 8, buffer);
        Ok(())
    }

    /// Unpack a value from the two's complement in its first 8 byte(s),
    /// most significant first.
    fn unpack(data: &[u8]) -> (r: Result<i64, PackingError>)
        ensures
            data@.len() < 8 ==> r == Err::<i64, PackingError>(PackingError::InvalidBufferSize),
            data@.len() >= 8 ==> (r matches Ok(v) && v as int == from_twos_complement(be_value(data@.take(8)), 8)),
    {
        if data.len() < 8 {
            return Err(PackingError::InvalidBufferSize);
        }
        let v = read_be(data, 8);
        let u = v as u64;
        proof {
            lemma_be_value_bound(data@.take(8));
            lemma_pow256_values();
            assert(u >= 0x8000000000000000 ==> (u as i64) as int == u as int - 0x10000000000000000) by (bit_vector);
            assert(u < 0x8000000000000000 ==> (u as i64) as int == u as int) by (bit_vector);
        }
        Ok(u as i64)
    }
}

impl Packable for i128 {
    /// An `i128` takes 16 byte(s).
    fn len() -> (n: usize)
        ensures
            n == 16,
    {
        16
    }

    /// Pack the value's two's complement, most significant byte first, into
    /// the first 16 byte(s) of the buffer.
    fn pack(self, buffer: &mut [u8]) -> (r: Result<(), PackingError>)
        ensures
            old(buffer)@.len() < 16 ==> r == Err::<(), PackingError>(PackingError::InvalidBufferSize)
                && final(buffer)@ == old(buffer)@,
            old(buffer)@.len() >= 16 ==> r == Ok::<(), PackingError>(())
                && final(buffer)@ == packed(old(buffer)@, be_bytes(twos_complement(self as int, 16), 16)),
    {
        if buffer.len() < 16 {
            return Err(PackingError::InvalidBufferSize);
        }
        let u = self as u128;
        proof {
            let s = self;
            assert(s >= 0 ==> (s as u128) as int == s as int) by (bit_vector);
            assert(s < 0 ==> (s as u128) as int == s as int + 0x100000000000000000000000000000000) by (bit_vector);
            lemma_pow256_values();
        }
        write_be(u as u128, 16, buffer);
        Ok(())
    }

    /// Unpack a value from the two's complement in its first 16 byte(s),
    /// most significant first.
    fn unpack(data: &[u8]) -> (r: Result<i128, PackingError>)
        ensures
            data@.len() < 16 ==> r == Err::<i128, PackingError>(PackingError::InvalidBufferSize),
            data@.len() >= 16 ==> (r matches Ok(v) && v as int == from_twos_complement(be_value(data@.take(16)), 16)),
    {
        if data.len() < 16 {
            return Err(PackingError::InvalidBufferSize);
        }
        let v = read_be(data, 16);
        let u = v as u128;
        proof {
            lemma_be_value_bound(data@.take(16));
            lemma_pow256_values();
            assert(u >= 0x80000000000000000000000000000000 ==> (u as i128) as int == u as int - 0x100000000000000000000000000000000) by (bit_vector);
            assert(u < 0x80000000000000000000000000000000 ==> (u as i128) as int == u as int) by (bit_vector);
        }
        Ok(u as i128)
    }
}

impl Packable for isize {
    /// An `isize` takes 8 byte(s).
    fn len() -> (n: usize)
        ensures
            n == 8,
    {
        8
    }

    /// Pack the value's two's complement, most significant byte first, into
    /// the first 8 byte(s) of the buffer.
    fn pack(self, buffer: &mut [u8]) -> (r: Result<(), PackingError>)
        ensures
            old(buffer)@.len() < 8 ==> r == Err::<(), PackingError>(PackingError::InvalidBufferSize)
                && final(buffer)@ == old(buffer)@,
            old(buffer)@.len() >= 8 ==> r == Ok::<(), PackingError>(())
                && final(buffer)@ == packed(old(buffer)@, be_bytes(twos_complement(self as int, 8), 8)),
    {
        if buffer.len() < 8 {
            return Err(PackingError::InvalidBufferSize);
        }
        let u = self as i64 as u64;
        proof {
            let s = self as i64;
            assert(s >= 0 ==> (s as u64) as int == s as int) by (bit_vector);
            assert(s < 0 ==> (s as u64) as int == s as int + 0x1_0000_0000_0000_0000) by (bit_vector);
            lemma_pow256_values();
        }
        write_be(u as u128, 8, buffer);
        Ok(())
    }

    /// Unpack a value from the two's complement in its first 8 byte(s),
    /// most significant first.
    fn unpack(data: &[u8]) -> (r: Result<isize, PackingError>)
        ensures
            data@.len() < 8 ==> r == Err::<isize, PackingError>(PackingError::InvalidBufferSize),
            data@.len() >= 8 ==> (r matches Ok(v) && v == (from_twos_complement(be_value(data@.take(8)), 8) as isize)),
    {
        if data.len() < 8 {
            return Err(PackingError::InvalidBufferSize);
        }
        let v = read_be(data, 8);
        let u = v as u64;
        let x = u as i64;
        proof {
            lemma_be_value_bound(data@.take(8));
            lemma_pow256_values();
            assert(u >= 0x8000_0000_0000_0000 ==> (u as i64) as int == u as int - 0x1_0000_0000_0000_0000) by (bit_vector);
            assert(u < 0x8000_0000_0000_0000 ==> (u as i64) as int == u as int) by (bit_vector);
        }
        Ok(#[verifier::truncate] (x as isize))
    }
}

} // verus!
