//! The byte images of values on the wire.
//!
//! Every message of the protocol is a fixed sequence of 32-bit fields and
//! byte arrays, written one after the other without padding, integers in
//! little-endian order.  [`Wire`] gives each such type its byte image and the
//! two directions of the conversion.

use vstd::prelude::*;

verus! {

/// The four bytes of `v`, least significant first.
pub open spec fn u32_bytes(v: u32) -> Seq<u8> {
    seq![
        (v % 256) as u8,
        (v / 256 % 256) as u8,
        (v / 65536 % 256) as u8,
        (v / 16777216) as u8,
    ]
}

/// The integer whose four bytes, least significant first, stand in `bytes`
/// from position `at` on.
pub open spec fn u32_at(bytes: Seq<u8>, at: int) -> u32 {
    (bytes[at] + 256 * bytes[at + 1] + 65536 * bytes[at + 2] + 16777216 * bytes[at + 3]) as u32
}

/// The unsigned integer with the same 32 bits as `v` in two's complement.
pub open spec fn i32_bits(v: i32) -> u32 {
    if v < 0 {
        (v + 0x1_0000_0000) as u32
    } else {
        v as u32
    }
}

/// The signed integer with the same 32 bits as `bits` in two's complement.
pub open spec fn bits_i32(bits: u32) -> i32 {
    if bits >= 0x8000_0000 {
        (bits - 0x1_0000_0000) as i32
    } else {
        bits as i32
    }
}

/// Reading the bytes of an integer gives the integer back, and writing the
/// integer read at a position gives the four bytes at that position.
pub proof fn lemma_u32_bytes(v: u32, bytes: Seq<u8>, at: int)
    requires
        0 <= at,
        at + 4 <= bytes.len(),
    ensures
        u32_bytes(v).len() == 4,
        u32_at(u32_bytes(v), 0) == v,
        u32_bytes(u32_at(bytes, at)) == bytes.subrange(at, at + 4),
{
    assert(u32_bytes(u32_at(bytes, at)) =~= bytes.subrange(at, at + 4));
}

/// The two readings of 32 bits, signed and unsigned, are inverse to each
/// other.
pub proof fn lemma_i32_bits(v: i32, bits: u32)
    ensures
        bits_i32(i32_bits(v)) == v,
        i32_bits(bits_i32(bits)) == bits,
{
}

/// If two sequences are each made of two parts, the first parts are equally
/// long and the wholes are equal, then the parts are equal.
pub proof fn lemma_split<A>(a1: Seq<A>, b1: Seq<A>, a2: Seq<A>, b2: Seq<A>)
    requires
        a1.len() == a2.len(),
        a1 + b1 == a2 + b2,
    ensures
        a1 == a2,
        b1 == b2,
{
    assert(a1 =~= (a1 + b1).subrange(0, a1.len() as int));
    assert(a2 =~= (a2 + b2).subrange(0, a2.len() as int));
    assert(b1 =~= (a1 + b1).subrange(a1.len() as int, (a1 + b1).len() as int));
    assert(b2 =~= (a2 + b2).subrange(a2.len() as int, (a2 + b2).len() as int));
}

/// A type with a fixed byte image on the wire.
pub trait Wire: Sized {
    /// The number of bytes that a value takes on the wire.
    spec fn spec_size() -> nat;

    /// The bytes that stand for the value on the wire.
    spec fn encoding(&self) -> Seq<u8>;

    /// Every byte image has the length of the type, and no two values share
    /// a byte image.
    proof fn lemma_encoding(a: &Self, b: &Self)
        ensures
            a.encoding().len() == Self::spec_size(),
            a.encoding() == b.encoding() ==> *a == *b,
    ;

    /// The number of bytes that a value takes on the wire.
    fn size() -> (n: usize)
        ensures
            n == Self::spec_size(),
    ;

    /// Appends the byte image of the value to `out`.
    fn encode_into(&self, out: &mut Vec<u8>)
        ensures
            final(out)@ == old(out)@ + self.encoding(),
    ;

    /// Reads the value whose byte image stands in `bytes` from position `at`
    /// on.
    fn decode_at(bytes: &[u8], at: usize) -> (v: Self)
        requires
            at + Self::spec_size() <= bytes@.len(),
        ensures
            v.encoding() == bytes@.subrange(at as int, at + Self::spec_size()),
    ;
}

impl Wire for u32 {
    open spec fn spec_size() -> nat {
        4
    }

    open spec fn encoding(&self) -> Seq<u8> {
        u32_bytes(*self)
    }

    proof fn lemma_encoding(a: &Self, b: &Self) {
        lemma_u32_bytes(*a, u32_bytes(*a), 0);
        lemma_u32_bytes(*b, u32_bytes(*b), 0);
    }

    fn size() -> (n: usize) {
        4
    }

    fn encode_into(&self, out: &mut Vec<u8>) {
        let v: u32 = *self;
        out.push((v % 256) as u8);
        out.push((v / 256 % 256) as u8);
        out.push((v / 65536 % 256) as u8);
        out.push((v / 16777216) as u8);
        assert(out@ =~= old(out)@ + u32_bytes(v));
    }

    fn decode_at(bytes: &[u8], at: usize) -> (v: Self) {
        let b0: u32 = bytes[at] as u32;
        let b1: u32 = bytes[at + 1] as u32;
        let b2: u32 = bytes[at + 2] as u32;
        let b3: u32 = bytes[at + 3] as u32;
        proof {
            lemma_u32_bytes(0, bytes@, at as int);
        }
        b0 + 256 * b1 + 65536 * b2 + 16777216 * b3
    }
}

impl Wire for i32 {
    open spec fn spec_size() -> nat {
        4
    }

    open spec fn encoding(&self) -> Seq<u8> {
        u32_bytes(i32_bits(*self))
    }

    proof fn lemma_encoding(a: &Self, b: &Self) {
        let (x, y) = (i32_bits(*a), i32_bits(*b));
        <u32 as Wire>::lemma_encoding(&x, &y);
        lemma_i32_bits(*a, 0);
        lemma_i32_bits(*b, 0);
    }

    fn size() -> (n: usize) {
        4
    }

    fn encode_into(&self, out: &mut Vec<u8>) {
        let wide: i64 = *self as i64;
        let bits: u32 = if wide < 0 {
            (wide + 0x1_0000_0000) as u32
        } else {
            wide as u32
        };
        bits.encode_into(out);
    }

    fn decode_at(bytes: &[u8], at: usize) -> (v: Self) {
        let bits: u32 = u32::decode_at(bytes, at);
        proof {
            lemma_i32_bits(0, bits);
        }
        if bits >= 0x8000_0000 {
            (bits as i64 - 0x1_0000_0000) as i32
        } else {
            bits as i32
        }
    }
}

impl<const N: usize> Wire for [u8; N] {
    open spec fn spec_size() -> nat {
        N as nat
    }

    open spec fn encoding(&self) -> Seq<u8> {
        self@
    }

    proof fn lemma_encoding(a: &Self, b: &Self) {
        if a@ == b@ {
            assert(*a =~= *b);
        }
    }

    fn size() -> (n: usize) {
        N
    }

    fn encode_into(&self, out: &mut Vec<u8>) {
        let mut i: usize = 0;
        while i < N
            invariant
                i <= N,
                out@ == old(out)@ + self@.subrange(0, i as int),
            decreases N - i,
        {
            out.push(self[i]);
            i += 1;
            assert(out@ =~= old(out)@ + self@.subrange(0, i as int));
        }
        assert(self@.subrange(0, N as int) =~= self@);
    }

    fn decode_at(bytes: &[u8], at: usize) -> (v: Self) {
        let total: usize = bytes.len();
        let mut v: [u8; N] = [0u8; N];
        let mut i: usize = 0;
        while i < N
            invariant
                i <= N,
                at + N <= total,
                total == bytes@.len(),
                forall|k: int| 0 <= k < i ==> v@[k] == bytes@[at + k],
            decreases N - i,
        {
            v[i] = bytes[at + i];
            i += 1;
        }
        assert(v@ =~= bytes@.subrange(at as int, at + N));
        v
    }
}

/// What parsing `bytes` as a `T` has to give: nothing unless there are as
/// many bytes as a `T` takes, and else the value whose byte image they are.
pub open spec fn parsed<T: Wire>(bytes: Seq<u8>, r: Option<T>) -> bool {
    match r {
        Some(value) => bytes.len() == T::spec_size() && value.encoding() == bytes,
        None => bytes.len() != T::spec_size(),
    }
}

/// The byte image of `value`.
pub fn as_bytes<T: Wire>(value: &T) -> (bytes: Vec<u8>)
    ensures
        bytes@ == value.encoding(),
{
    let mut bytes: Vec<u8> = Vec::new();
    value.encode_into(&mut bytes);
    assert(bytes@ =~= value.encoding());
    bytes
}

/// The value whose byte image is `bytes`, if `bytes` has the length of one.
pub fn from_bytes<T: Wire>(bytes: &[u8]) -> (r: Option<T>)
    ensures
        parsed(bytes@, r),
{
    if bytes.len() == T::size() {
        let value = T::decode_at(bytes, 0);
        assert(bytes@.subrange(0, bytes@.len() as int) =~= bytes@);
        Some(value)
    } else {
        None
    }
}

/// Writing a value and parsing the bytes gives the value back: whatever
/// parsing the byte image of `value` gives, it is `value`.
pub proof fn lemma_round_trip<T: Wire>(value: T, r: Option<T>)
    requires
        parsed(value.encoding(), r),
    ensures
        r == Some(value),
{
    T::lemma_encoding(&value, &value);
    if let Some(back) = r {
        T::lemma_encoding(&back, &value);
    }
}

} // verus!
