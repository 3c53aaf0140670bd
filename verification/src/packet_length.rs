use vstd::prelude::*;

verus! {

/// The largest packet length a client may announce (three full VarInt bytes).
pub const MAXIMUM_PACKET_LENGTH: usize = 2_097_151;

/// Why a byte reader could not read a value.
#[derive(Debug, PartialEq, Eq)]
pub enum BinaryReaderError {
    /// The bytes ended in the middle of the value.
    UnexpectedEof,
    /// A VarInt ran over five bytes.
    VarIntTooLong,
}

/// Why a VarInt could not be read.
#[derive(Debug, PartialEq, Eq)]
pub enum VarIntError {
    /// The bytes ended before a byte without the continuation bit.
    UnexpectedEof,
    /// Five bytes all carried the continuation bit.
    TooLong,
}

/// Why the length prefix of a packet is not acceptable.
#[derive(Debug, PartialEq, Eq)]
pub enum PacketLengthParseError {
    NegativeLength,
    PacketTooLarge,
    /// The length could not be read.
    BinaryReader(BinaryReaderError),
    /// Not returned by `get_packet_length`: a VarInt that runs over five
    /// bytes is the byte reader's error.
    VarIntTooLong,
}

/// The low seven bits of a VarInt byte.
pub open spec fn septet(b: u8) -> nat {
    (b % 128) as nat
}

/// Whether a VarInt byte says that another byte follows.
pub open spec fn continues(b: u8) -> bool {
    b >= 128
}

/// 128 to the power `n`.
pub open spec fn pow128(n: nat) -> nat
    decreases n,
{
    if n == 0 {
        1
    } else {
        128 * pow128((n - 1) as nat)
    }
}

/// The little-endian base-128 number made of the septets of the first `n` bytes.
pub open spec fn septet_sum(bytes: Seq<u8>, n: nat) -> nat
    decreases n,
{
    if n == 0 {
        0
    } else {
        septet_sum(bytes, (n - 1) as nat) + septet(bytes[n - 1]) * pow128((n - 1) as nat)
    }
}

/// Looks for the last byte of a VarInt from index `k`: the number of bytes the
/// VarInt takes, or why there is none within five bytes.
pub open spec fn varint_scan(bytes: Seq<u8>, k: nat) -> Result<nat, VarIntError>
    decreases 5 - k,
{
    if k >= 5 {
        Err(VarIntError::TooLong)
    } else if k >= bytes.len() {
        Err(VarIntError::UnexpectedEof)
    } else if !continues(bytes[k as int]) {
        Ok(k + 1)
    } else {
        varint_scan(bytes, k + 1)
    }
}

/// A 32-bit pattern read as a two's-complement signed integer.
pub open spec fn as_i32(u: int) -> int {
    if u >= 0x8000_0000 {
        u - 0x1_0000_0000
    } else {
        u
    }
}

/// The VarInt at the start of `bytes`: its value (the low 32 bits of the
/// septets, as a signed integer) and the number of bytes it takes.
pub open spec fn spec_read_varint(bytes: Seq<u8>) -> Result<(int, nat), VarIntError> {
    match varint_scan(bytes, 0) {
        Ok(n) => Ok((as_i32((septet_sum(bytes, n) % 0x1_0000_0000) as int), n)),
        Err(e) => Err(e),
    }
}

/// The length announced at the start of a packet, or why it is refused: a
/// VarInt that cannot be read is the byte reader's error.
pub open spec fn spec_packet_length(bytes: Seq<u8>) -> Result<int, PacketLengthParseError> {
    match spec_read_varint(bytes) {
        Err(VarIntError::UnexpectedEof) => Err(
            PacketLengthParseError::BinaryReader(BinaryReaderError::UnexpectedEof),
        ),
        Err(VarIntError::TooLong) => Err(
            PacketLengthParseError::BinaryReader(BinaryReaderError::VarIntTooLong),
        ),
        Ok((v, _)) => if v < 0 {
            Err(PacketLengthParseError::NegativeLength)
        } else if v > MAXIMUM_PACKET_LENGTH {
            Err(PacketLengthParseError::PacketTooLarge)
        } else {
            Ok(v)
        },
    }
}

/// The septets of the first `n` bytes stay below `128^n`.
pub proof fn lemma_septet_sum_bound(bytes: Seq<u8>, n: nat)
    ensures
        septet_sum(bytes, n) < pow128(n),
    decreases n,
{
    if n > 0 {
        lemma_septet_sum_bound(bytes, (n - 1) as nat);
        let a = septet_sum(bytes, (n - 1) as nat);
        let p = pow128((n - 1) as nat);
        let s = septet(bytes[n - 1]);
        assert(a + s * p < 128 * p) by (nonlinear_arith)
            requires
                a < p,
                s <= 127,
        ;
    }
}

/// The first powers of 128.
pub proof fn lemma_pow128_values()
    ensures
        pow128(0) == 1,
        pow128(1) == 128,
        pow128(2) == 16384,
        pow128(3) == 2097152,
        pow128(4) == 268435456,
        pow128(5) == 0x8_0000_0000,
{
    reveal_with_fuel(pow128, 6);
}

/// Reads the VarInt at the start of `bytes`: its value and the number of bytes it takes.
pub fn read_varint(bytes: &[u8]) -> (r: Result<(i32, usize), VarIntError>)
    ensures
        match r {
            Ok((v, n)) => spec_read_varint(bytes@) == Ok::<(int, nat), VarIntError>((v as int, n as nat)),
            Err(e) => spec_read_varint(bytes@) == Err::<(int, nat), VarIntError>(e),
        },
{
    let mut acc: u64 = 0;
    let mut mult: u64 = 1;
    let mut k: usize = 0;
    while k < 5
        invariant
            k <= 5,
            acc == septet_sum(bytes@, k as nat),
            mult == pow128(k as nat),
            acc < mult,
            mult <= 0x8_0000_0000,
            varint_scan(bytes@, 0) == varint_scan(bytes@, k as nat),
        decreases 5 - k,
    {
        if k >= bytes.len() {
            return Err(VarIntError::UnexpectedEof);
        }
        let b = bytes[k];
        let s = (b % 128) as u64;
        proof {
            lemma_septet_sum_bound(bytes@, k as nat);
            assert(acc + s * mult < 128 * mult) by (nonlinear_arith)
                requires
                    acc < mult,
                    s <= 127,
            ;
            lemma_pow128_values();
            assert(k <= 4 ==> mult <= 0x1000_0000);
        }
        acc = acc + s * mult;
        if b < 128 {
            let low = (acc % 0x1_0000_0000) as u32;
            let v: i32 = if low >= 0x8000_0000 {
                ((low - 0x8000_0000) as i32) - 0x7FFF_FFFF - 1
            } else {
                low as i32
            };
            return Ok((v, k + 1));
        }
        if k == 4 {
            assert(varint_scan(bytes@, 5) == Err::<nat, VarIntError>(VarIntError::TooLong));
            return Err(VarIntError::TooLong);
        }
        mult = mult * 128;
        k = k + 1;
    }
    Err(VarIntError::TooLong)
}

/// The packet length announced by the VarInt at the start of `bytes`:
/// refused when negative or above `MAXIMUM_PACKET_LENGTH`.
pub fn get_packet_length(bytes: &[u8]) -> (r: Result<usize, PacketLengthParseError>)
    ensures
        match r {
            Ok(n) => spec_packet_length(bytes@) == Ok::<int, PacketLengthParseError>(n as int),
            Err(e) => spec_packet_length(bytes@) == Err::<int, PacketLengthParseError>(e),
        },
{
    match read_varint(bytes) {
        Err(VarIntError::UnexpectedEof) => Err(
            PacketLengthParseError::BinaryReader(BinaryReaderError::UnexpectedEof),
        ),
        Err(VarIntError::TooLong) => Err(
            PacketLengthParseError::BinaryReader(BinaryReaderError::VarIntTooLong),
        ),
        Ok((v, _)) => {
            if v < 0 {
                Err(PacketLengthParseError::NegativeLength)
            } else if v as usize > MAXIMUM_PACKET_LENGTH {
                Err(PacketLengthParseError::PacketTooLarge)
            } else {
                Ok(v as usize)
            }
        },
    }
}

/// The VarInt encoding of a non-negative number: seven bits per byte, least
/// significant first, the high bit set on every byte but the last.
pub open spec fn spec_write_varint(v: nat) -> Seq<u8>
    decreases v,
{
    if v < 128 {
        seq![v as u8]
    } else {
        seq![((v % 128) + 128) as u8] + spec_write_varint(v / 128)
    }
}

/// The septet sum of the first `n` bytes only reads those bytes.
proof fn lemma_septet_sum_prefix(a: Seq<u8>, b: Seq<u8>, n: nat)
    requires
        n <= a.len(),
        n <= b.len(),
        forall|j: int| 0 <= j < n ==> a[j] == b[j],
    ensures
        septet_sum(a, n) == septet_sum(b, n),
    decreases n,
{
    if n > 0 {
        lemma_septet_sum_prefix(a, b, (n - 1) as nat);
    }
}

/// The scan for the end of a VarInt from `k` only reads the bytes before the end it finds.
proof fn lemma_scan_prefix(a: Seq<u8>, b: Seq<u8>, k: nat)
    requires
        varint_scan(a, k) is Ok,
        varint_scan(a, k)->Ok_0 <= a.len(),
        varint_scan(a, k)->Ok_0 <= b.len(),
        forall|j: int| 0 <= j < varint_scan(a, k)->Ok_0 ==> #[trigger] a[j] == b[j],
    ensures
        varint_scan(b, k) == varint_scan(a, k),
    decreases 5 - k,
{
    lemma_scan_within(a, k);
    let n = varint_scan(a, k)->Ok_0;
    assert(k < n);
    assert(k < b.len() && a[k as int] == b[k as int]);
    if k < 5 && k < a.len() && continues(a[k as int]) {
        assert(varint_scan(a, k) == varint_scan(a, k + 1));
        lemma_scan_prefix(a, b, k + 1);
    }
}

/// The scan finds the first byte without the continuation bit.
proof fn lemma_scan_finds(bytes: Seq<u8>, k: nat, n: nat)
    requires
        k < n <= 5,
        n <= bytes.len(),
        forall|j: int| k <= j < n - 1 ==> continues(#[trigger] bytes[j]),
        !continues(bytes[n - 1]),
    ensures
        varint_scan(bytes, k) == Ok::<nat, VarIntError>(n),
    decreases n - k,
{
    if k + 1 < n {
        lemma_scan_finds(bytes, k + 1, n);
    }
}

/// Putting a byte in front multiplies the septet sum by 128 and adds its septet.
proof fn lemma_septet_sum_cons(b: u8, s: Seq<u8>, n: nat)
    requires
        n <= s.len(),
    ensures
        septet_sum(seq![b] + s, n + 1) == septet(b) + 128 * septet_sum(s, n),
    decreases n,
{
    let t = seq![b] + s;
    assert(septet_sum(t, n + 1) == septet_sum(t, n) + septet(t[n as int]) * pow128(n));
    if n == 0 {
        assert(t[0] == b);
        assert(septet_sum(t, 0) == 0);
        assert(pow128(0) == 1);
        assert(septet_sum(s, 0) == 0);
        let sb = septet(b);
        let p0 = pow128(0);
        assert(septet(t[0]) == sb);
        assert(sb * p0 == sb) by (nonlinear_arith)
            requires
                p0 == 1,
        ;
        assert(septet_sum(t, 1) == septet(b));
    } else {
        lemma_septet_sum_cons(b, s, (n - 1) as nat);
        assert(t[n as int] == s[n - 1]);
        let a = septet_sum(s, (n - 1) as nat);
        let p = pow128((n - 1) as nat);
        let x = septet(s[n - 1]);
        assert(pow128(n) == 128 * p);
        assert(septet_sum(s, n) == a + x * p);
        assert(septet(t[n as int]) == x);
        assert(septet_sum(t, n) == septet(b) + 128 * a);
        assert(x * pow128(n) == x * (128 * p));
        assert(septet(b) + 128 * a + x * (128 * p) == septet(b) + 128 * (a + x * p)) by (nonlinear_arith);
    }
}

/// The encoding of `v`: every byte but the last continues, and the septets add up to `v`.
proof fn lemma_write_varint(v: nat, rest: Seq<u8>)
    ensures
        1 <= spec_write_varint(v).len(),
        forall|j: int| 0 <= j < spec_write_varint(v).len() - 1 ==> continues(#[trigger] spec_write_varint(v)[j]),
        !continues(spec_write_varint(v)[spec_write_varint(v).len() - 1]),
        septet_sum(spec_write_varint(v) + rest, spec_write_varint(v).len()) == v,
        v < pow128(spec_write_varint(v).len()),
        v >= 128 ==> pow128((spec_write_varint(v).len() - 1) as nat) <= v,
    decreases v,
{
    let e = spec_write_varint(v);
    if v < 128 {
        assert(e.len() == 1);
        assert((e + rest)[0] == v as u8);
        assert(pow128(1) == 128 * pow128(0));
        reveal_with_fuel(septet_sum, 2);
        let sv = septet(v as u8);
        let p0 = pow128(0);
        assert(sv == v);
        assert(sv * p0 == sv) by (nonlinear_arith)
            requires
                p0 == 1,
        ;
        assert(septet_sum(e + rest, 1) == v);
    } else {
        let h = ((v % 128) + 128) as u8;
        let t = spec_write_varint(v / 128);
        lemma_write_varint(v / 128, rest);
        assert(e == seq![h] + t);
        let m = t.len();
        assert(e.len() == m + 1);
        assert forall|j: int| 0 <= j < m implies continues(#[trigger] e[j]) by {
            if 0 < j < m {
                assert(e[j] == t[j - 1]);
            }
        }
        assert(e[m as int] == t[m - 1]);
        assert(e + rest =~= seq![h] + (t + rest));
        lemma_septet_sum_cons(h, t + rest, m);
        assert(septet(h) == v % 128);
        assert(v == v % 128 + 128 * (v / 128));
        assert(septet_sum(e + rest, m + 1) == v);
        assert(pow128(m + 1) == 128 * pow128(m));
        if v / 128 >= 128 {
            assert(pow128((m - 1) as nat) <= v / 128);
            assert(pow128(m) == 128 * pow128((m - 1) as nat));
        } else {
            assert(m == 1);
        }
        assert(pow128(m) <= v);
    }
}

/// A VarInt is read from its own bytes alone: whatever follows it does not
/// change the value read or the number of bytes taken.
pub proof fn law_read_varint_ignores_what_follows(bytes: Seq<u8>, rest: Seq<u8>)
    requires
        spec_read_varint(bytes) is Ok,
    ensures
        spec_read_varint(bytes + rest) == spec_read_varint(bytes),
{
    let n = varint_scan(bytes, 0)->Ok_0;
    lemma_scan_within(bytes, 0);
    assert forall|j: int| 0 <= j < n implies #[trigger] bytes[j] == (bytes + rest)[j] by {}
    lemma_scan_prefix(bytes, bytes + rest, 0);
    lemma_septet_sum_prefix(bytes, bytes + rest, n);
}

/// The end that the scan finds lies within the bytes.
proof fn lemma_scan_within(bytes: Seq<u8>, k: nat)
    requires
        varint_scan(bytes, k) is Ok,
    ensures
        varint_scan(bytes, k)->Ok_0 <= bytes.len(),
        varint_scan(bytes, k)->Ok_0 > k,
    decreases 5 - k,
{
    if k < 5 && k < bytes.len() && continues(bytes[k as int]) {
        lemma_scan_within(bytes, k + 1);
    }
}

/// Reading the VarInt encoding of a number below 2^31 gives the number back,
/// and the number of bytes of its encoding, whatever bytes follow.
pub proof fn law_varint_roundtrip(v: nat, rest: Seq<u8>)
    requires
        v < 0x8000_0000,
    ensures
        spec_read_varint(spec_write_varint(v) + rest) == Ok::<(int, nat), VarIntError>(
            (v as int, spec_write_varint(v).len()),
        ),
{
    let e = spec_write_varint(v);
    let n = e.len();
    lemma_write_varint(v, rest);
    lemma_pow128_values();
    if n > 5 {
        assert(pow128(5) <= pow128((n - 1) as nat)) by {
            lemma_pow128_monotone(5, (n - 1) as nat);
        }
    }
    assert(n <= 5);
    let bytes = e + rest;
    assert forall|j: int| 0 <= j < n - 1 implies continues(#[trigger] bytes[j]) by {
        assert(bytes[j] == e[j]);
    }
    assert(bytes[n - 1] == e[n - 1]);
    lemma_scan_finds(bytes, 0, n);
    assert(v % 0x1_0000_0000 == v);
}

/// Powers of 128 grow with the exponent.
proof fn lemma_pow128_monotone(a: nat, b: nat)
    requires
        a <= b,
    ensures
        pow128(a) <= pow128(b),
    decreases b - a,
{
    if a < b {
        lemma_pow128_monotone(a, (b - 1) as nat);
    }
}

/// A packet length up to the maximum, written as a VarInt, is accepted and
/// read back, whatever bytes follow it.
pub proof fn law_packet_length_roundtrip(len: nat, rest: Seq<u8>)
    requires
        len <= MAXIMUM_PACKET_LENGTH,
    ensures
        spec_packet_length(spec_write_varint(len) + rest) == Ok::<int, PacketLengthParseError>(len as int),
{
    law_varint_roundtrip(len, rest);
}

} // verus!
