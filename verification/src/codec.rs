//! Little-endian images of integers: how a typed value lies in the memory of
//! the target, and how it is read back.

use vstd::prelude::*;

verus! {

/// The integer types that a typed access can read or write.
#[derive(Clone, Copy, Debug, PartialEq, Eq, Structural)]
pub enum ValueKind {
    I8,
    I16,
    I32,
    I64,
    U8,
    U16,
    U32,
    U64,
}

/// An integer together with its type.
#[derive(Clone, Copy, Debug, PartialEq, Eq, Structural)]
pub enum Value {
    I8(i8),
    I16(i16),
    I32(i32),
    I64(i64),
    U8(u8),
    U16(u16),
    U32(u32),
    U64(u64),
}

/// 256 to the power of `width`: the number of values that `width` bytes hold.
pub open spec fn pow256(width: nat) -> nat
    decreases width,
{
    if width == 0 {
        1
    } else {
        256 * pow256((width - 1) as nat)
    }
}

/// The number that `bytes` spell, least significant byte first.
pub open spec fn le_number(bytes: Seq<u8>) -> nat
    decreases bytes.len(),
{
    if bytes.len() == 0 {
        0
    } else {
        bytes[0] as nat + 256 * le_number(bytes.drop_first())
    }
}

/// The `width` low bytes of `number`, least significant byte first.
pub open spec fn le_bytes(number: nat, width: nat) -> Seq<u8>
    decreases width,
{
    if width == 0 {
        Seq::empty()
    } else {
        seq![(number % 256) as u8] + le_bytes(number / 256, (width - 1) as nat)
    }
}

impl ValueKind {
    /// The number of bytes that a value of this kind occupies.
    pub open spec fn width(self) -> nat {
        match self {
            ValueKind::I8 | ValueKind::U8 => 1,
            ValueKind::I16 | ValueKind::U16 => 2,
            ValueKind::I32 | ValueKind::U32 => 4,
            ValueKind::I64 | ValueKind::U64 => 8,
        }
    }

    /// Whether values of this kind are signed.
    pub open spec fn is_signed(self) -> bool {
        match self {
            ValueKind::I8 | ValueKind::I16 | ValueKind::I32 | ValueKind::I64 => true,
            _ => false,
        }
    }

    /// Whether `number` is a value of this kind.
    pub open spec fn holds(self, number: int) -> bool {
        if self.is_signed() {
            -(pow256(self.width()) / 2) <= number < pow256(self.width()) / 2
        } else {
            0 <= number < pow256(self.width())
        }
    }

    /// The value of this kind whose image is the unsigned number `raw`
    /// (two's complement for the signed kinds).
    pub open spec fn interpret(self, raw: nat) -> int {
        if self.is_signed() && raw >= pow256(self.width()) / 2 {
            raw - pow256(self.width())
        } else {
            raw as int
        }
    }

    /// The unsigned number whose bytes are the image of `number`.
    pub open spec fn image(self, number: int) -> nat {
        if number < 0 {
            (number + pow256(self.width())) as nat
        } else {
            number as nat
        }
    }

    /// The value of this kind that `number` is.
    pub open spec fn value(self, number: int) -> Value {
        match self {
            ValueKind::I8 => Value::I8(number as i8),
            ValueKind::I16 => Value::I16(number as i16),
            ValueKind::I32 => Value::I32(number as i32),
            ValueKind::I64 => Value::I64(number as i64),
            ValueKind::U8 => Value::U8(number as u8),
            ValueKind::U16 => Value::U16(number as u16),
            ValueKind::U32 => Value::U32(number as u32),
            ValueKind::U64 => Value::U64(number as u64),
        }
    }

    /// The value of this kind that lies under `bytes`, if they are exactly
    /// as many as the kind is wide.
    pub open spec fn decoded(self, bytes: Seq<u8>) -> Option<Value> {
        if bytes.len() == self.width() {
            Some(self.value(self.interpret(le_number(bytes))))
        } else {
            None
        }
    }

    /// The number of bytes that a value of this kind occupies.
    pub fn size(self) -> (n: usize)
        ensures
            n == self.width(),
    {
        match self {
            ValueKind::I8 | ValueKind::U8 => 1,
            ValueKind::I16 | ValueKind::U16 => 2,
            ValueKind::I32 | ValueKind::U32 => 4,
            ValueKind::I64 | ValueKind::U64 => 8,
        }
    }
}

impl Value {
    /// The type of the value.
    pub open spec fn spec_kind(self) -> ValueKind {
        match self {
            Value::I8(_) => ValueKind::I8,
            Value::I16(_) => ValueKind::I16,
            Value::I32(_) => ValueKind::I32,
            Value::I64(_) => ValueKind::I64,
            Value::U8(_) => ValueKind::U8,
            Value::U16(_) => ValueKind::U16,
            Value::U32(_) => ValueKind::U32,
            Value::U64(_) => ValueKind::U64,
        }
    }

    /// The value as a mathematical integer.
    pub open spec fn number(self) -> int {
        match self {
            Value::I8(v) => v as int,
            Value::I16(v) => v as int,
            Value::I32(v) => v as int,
            Value::I64(v) => v as int,
            Value::U8(v) => v as int,
            Value::U16(v) => v as int,
            Value::U32(v) => v as int,
            Value::U64(v) => v as int,
        }
    }

    /// The bytes under which the value lies in memory.
    pub open spec fn bytes(self) -> Seq<u8> {
        le_bytes(self.spec_kind().image(self.number()), self.spec_kind().width())
    }

    /// The type of the value.
    #[verifier::when_used_as_spec(spec_kind)]
    pub fn kind(self) -> (kind: ValueKind)
        ensures
            kind == self.spec_kind(),
    {
        match self {
            Value::I8(_) => ValueKind::I8,
            Value::I16(_) => ValueKind::I16,
            Value::I32(_) => ValueKind::I32,
            Value::I64(_) => ValueKind::I64,
            Value::U8(_) => ValueKind::U8,
            Value::U16(_) => ValueKind::U16,
            Value::U32(_) => ValueKind::U32,
            Value::U64(_) => ValueKind::U64,
        }
    }
}

/// The first powers of 256.
pub proof fn lemma_pow256_values()
    ensures
        pow256(0) == 1,
        pow256(1) == 0x100,
        pow256(2) == 0x1_0000,
        pow256(3) == 0x100_0000,
        pow256(4) == 0x1_0000_0000,
        pow256(5) == 0x100_0000_0000,
        pow256(6) == 0x1_0000_0000_0000,
        pow256(7) == 0x100_0000_0000_0000,
        pow256(8) == 0x1_0000_0000_0000_0000,
{
    reveal_with_fuel(pow256, 10);
}

/// `pow256` grows with the width.
pub proof fn lemma_pow256_monotonic(low: nat, high: nat)
    requires
        low <= high,
    ensures
        0 < pow256(low) <= pow256(high),
    decreases high,
{
    if high == 0 {
    } else if low == high {
        lemma_pow256_monotonic((low - 1) as nat, (low - 1) as nat);
    } else {
        lemma_pow256_monotonic(low, (high - 1) as nat);
    }
}

/// The number that bytes spell is below 256 to the power of their count.
pub proof fn lemma_le_number_bound(bytes: Seq<u8>)
    ensures
        le_number(bytes) < pow256(bytes.len()),
    decreases bytes.len(),
{
    if bytes.len() > 0 {
        lemma_le_number_bound(bytes.drop_first());
    }
}

/// `le_bytes` gives as many bytes as asked for.
pub proof fn lemma_le_bytes_len(number: nat, width: nat)
    ensures
        le_bytes(number, width).len() == width,
    decreases width,
{
    if width > 0 {
        lemma_le_bytes_len(number / 256, (width - 1) as nat);
    }
}

/// Reading back the bytes of a number that fits gives the number.
pub proof fn lemma_le_number_of_bytes(number: nat, width: nat)
    requires
        number < pow256(width),
    ensures
        le_number(le_bytes(number, width)) == number,
    decreases width,
{
    if width > 0 {
        let rest = le_bytes(number / 256, (width - 1) as nat);
        let all = le_bytes(number, width);
        assert(all.drop_first() =~= rest);
        lemma_le_number_of_bytes(number / 256, (width - 1) as nat);
    }
}

/// A value read back from its own image is the value itself.
pub proof fn lemma_value_round_trip(value: Value)
    ensures
        value.bytes().len() == value.spec_kind().width(),
        value.spec_kind().holds(value.number()),
        value.spec_kind().interpret(le_number(value.bytes())) == value.number(),
{
    let kind = value.spec_kind();
    lemma_pow256_values();
    lemma_le_bytes_len(kind.image(value.number()), kind.width());
    lemma_le_number_of_bytes(kind.image(value.number()), kind.width());
}

fn le_decode(bytes: &[u8]) -> (r: u64)
    requires
        bytes@.len() <= 8,
    ensures
        r == le_number(bytes@),
{
    let mut acc: u64 = 0;
    let mut i: usize = bytes.len();
    assert(bytes@.skip(i as int) =~= Seq::<u8>::empty());
    while i > 0
        invariant
            i <= bytes@.len() <= 8,
            acc == le_number(bytes@.skip(i as int)),
        decreases i,
    {
        proof {
            let tail = bytes@.skip(i as int);
            let next = bytes@.skip(i - 1);
            assert(next.drop_first() =~= tail);
            assert(next[0] == bytes@[i - 1]);
            lemma_le_number_bound(tail);
            lemma_pow256_monotonic(tail.len(), 7);
            lemma_pow256_values();
        }
        i = i - 1;
        acc = acc * 256 + bytes[i] as u64;
    }
    assert(bytes@.skip(0) =~= bytes@);
    acc
}

fn le_encode(number: u64, width: usize) -> (r: Vec<u8>)
    requires
        width <= 8,
    ensures
        r@ == le_bytes(number as nat, width as nat),
{
    let mut out: Vec<u8> = Vec::new();
    let mut rest: u64 = number;
    let mut i: usize = 0;
    assert(out@ + le_bytes(rest as nat, width as nat) =~= le_bytes(number as nat, width as nat));
    while i < width
        invariant
            i <= width,
            out@ + le_bytes(rest as nat, (width - i) as nat) == le_bytes(
                number as nat,
                width as nat,
            ),
        decreases width - i,
    {
        let byte: u8 = (rest % 256) as u8;
        proof {
            let after = le_bytes((rest / 256) as nat, (width - i - 1) as nat);
            assert(out@.push(byte) + after =~= out@ + (seq![byte] + after));
        }
        out.push(byte);
        rest = rest / 256;
        i = i + 1;
    }
    assert(out@ + Seq::<u8>::empty() =~= out@);
    out
}

/// Reads a value of the given kind from its little-endian image. The image
/// must be exactly as long as the kind is wide.
pub fn decode(kind: ValueKind, bytes: &[u8]) -> (r: Option<Value>)
    ensures
        r == kind.decoded(bytes@),
{
    if bytes.len() != kind.size() {
        return None;
    }
    let raw: u64 = le_decode(bytes);
    proof {
        lemma_le_number_bound(bytes@);
        lemma_pow256_values();
    }
    let value = match kind {
        ValueKind::U8 => Value::U8(raw as u8),
        ValueKind::U16 => Value::U16(raw as u16),
        ValueKind::U32 => Value::U32(raw as u32),
        ValueKind::U64 => Value::U64(raw),
        ValueKind::I8 => if raw >= 0x80 {
            Value::I8((raw as i64 - 0x100) as i8)
        } else {
            Value::I8(raw as i8)
        },
        ValueKind::I16 => if raw >= 0x8000 {
            Value::I16((raw as i64 - 0x1_0000) as i16)
        } else {
            Value::I16(raw as i16)
        },
        ValueKind::I32 => if raw >= 0x8000_0000 {
            Value::I32((raw as i64 - 0x1_0000_0000) as i32)
        } else {
            Value::I32(raw as i32)
        },
        ValueKind::I64 => if raw >= 0x8000_0000_0000_0000 {
            Value::I64((raw - 0x8000_0000_0000_0000) as i64 + i64::MIN)
        } else {
            Value::I64(raw as i64)
        },
    };
    Some(value)
}

/// The little-endian image of a value.
pub fn encode(value: Value) -> (r: Vec<u8>)
    ensures
        r@ == value.bytes(),
{
    proof {
        lemma_pow256_values();
    }
    match value {
        Value::U8(v) => le_encode(v as u64, 1),
        Value::U16(v) => le_encode(v as u64, 2),
        Value::U32(v) => le_encode(v as u64, 4),
        Value::U64(v) => le_encode(v, 8),
        Value::I8(v) => if v < 0 {
            le_encode((v as i64 + 0x100) as u64, 1)
        } else {
            le_encode(v as u64, 1)
        },
        Value::I16(v) => if v < 0 {
            le_encode((v as i64 + 0x1_0000) as u64, 2)
        } else {
            le_encode(v as u64, 2)
        },
        Value::I32(v) => if v < 0 {
            le_encode((v as i64 + 0x1_0000_0000) as u64, 4)
        } else {
            le_encode(v as u64, 4)
        },
        Value::I64(v) => if v < 0 {
            le_encode((v - i64::MIN) as u64 + 0x8000_0000_0000_0000, 8)
        } else {
            le_encode(v as u64, 8)
        },
    }
}

impl Value {
    /// The value as a wide integer.
    pub fn to_i128(self) -> (n: i128)
        ensures
            n == self.number(),
    {
        match self {
            Value::I8(v) => v as i128,
            Value::I16(v) => v as i128,
            Value::I32(v) => v as i128,
            Value::I64(v) => v as i128,
            Value::U8(v) => v as i128,
            Value::U16(v) => v as i128,
            Value::U32(v) => v as i128,
            Value::U64(v) => v as i128,
        }
    }

    /// The value of the given kind that `number` is, if the kind holds it.
    pub fn of_kind(kind: ValueKind, number: i128) -> (r: Option<Value>)
        ensures
            match r {
                Some(value) => {
                    &&& kind.holds(number as int)
                    &&& value.spec_kind() == kind
                    &&& value.number() == number
                },
                None => !kind.holds(number as int),
            },
    {
        proof {
            lemma_pow256_values();
        }
        match kind {
            ValueKind::I8 => if -0x80 <= number && number < 0x80 {
                Some(Value::I8(number as i8))
            } else {
                None
            },
            ValueKind::I16 => if -0x8000 <= number && number < 0x8000 {
                Some(Value::I16(number as i16))
            } else {
                None
            },
            ValueKind::I32 => if -0x8000_0000 <= number && number < 0x8000_0000 {
                Some(Value::I32(number as i32))
            } else {
                None
            },
            ValueKind::I64 => if -0x8000_0000_0000_0000 <= number && number
                < 0x8000_0000_0000_0000 {
                Some(Value::I64(number as i64))
            } else {
                None
            },
            ValueKind::U8 => if 0 <= number && number < 0x100 {
                Some(Value::U8(number as u8))
            } else {
                None
            },
            ValueKind::U16 => if 0 <= number && number < 0x1_0000 {
                Some(Value::U16(number as u16))
            } else {
                None
            },
            ValueKind::U32 => if 0 <= number && number < 0x1_0000_0000 {
                Some(Value::U32(number as u32))
            } else {
                None
            },
            ValueKind::U64 => if 0 <= number && number < 0x1_0000_0000_0000_0000 {
                Some(Value::U64(number as u64))
            } else {
                None
            },
        }
    }
}

/// A value that was read inside a module, taken relative to the module's
/// base and moved by `extra`: `raw - base + extra`, computed in the kind of
/// the value. There is none where the base, `extra`, the difference or the
/// sum is no value of that kind.
pub open spec fn relative_number(kind: ValueKind, raw: int, base: int, extra: int) -> Option<int> {
    if kind.holds(base) && kind.holds(extra) && kind.holds(raw - base) && kind.holds(
        raw - base + extra,
    ) {
        Some(raw - base + extra)
    } else {
        None
    }
}

/// The relative value as a value of the kind of `raw`.
pub open spec fn relative(raw: Value, base_address: usize, extra: usize) -> Option<Value> {
    match relative_number(raw.spec_kind(), raw.number(), base_address as int, extra as int) {
        Some(number) => Some(raw.spec_kind().value(number)),
        None => None,
    }
}

/// Computes `raw - base_address + extra` in the kind of `raw`.
pub fn relative_value(raw: Value, base_address: usize, extra: usize) -> (r: Option<Value>)
    ensures
        r == relative(raw, base_address, extra),
{
    let kind = raw.kind();
    let base: i128 = base_address as i128;
    let moved: i128 = extra as i128;
    if Value::of_kind(kind, base).is_none() || Value::of_kind(kind, moved).is_none() {
        return None;
    }
    let difference: i128 = raw.to_i128() - base;
    if Value::of_kind(kind, difference).is_none() {
        return None;
    }
    Value::of_kind(kind, difference + moved)
}

/// The address that a pointer image spells, if the image is at most eight
/// bytes long and the address is one that this build can hold.
pub open spec fn pointer_of(bytes: Seq<u8>) -> Option<usize> {
    if bytes.len() <= 8 && le_number(bytes) <= usize::MAX {
        Some(le_number(bytes) as usize)
    } else {
        None
    }
}

/// Reads an address from its little-endian image.
pub fn decode_pointer(bytes: &[u8]) -> (r: Option<usize>)
    ensures
        r == pointer_of(bytes@),
{
    if bytes.len() > 8 {
        return None;
    }
    let raw: u64 = le_decode(bytes);
    if raw > usize::MAX as u64 {
        None
    } else {
        Some(raw as usize)
    }
}

/// The sum of an address and an offset, wrapping round at the end of the
/// address space.
pub open spec fn wrapped_sum(address: usize, offset: usize) -> usize {
    if address + offset > usize::MAX {
        (address + offset - usize::MAX - 1) as usize
    } else {
        (address + offset) as usize
    }
}

/// Adds an offset to an address, wrapping round at the end of the address
/// space.
pub fn add_offset(address: usize, offset: usize) -> (r: usize)
    ensures
        r == wrapped_sum(address, offset),
{
    if offset > usize::MAX - address {
        offset - (usize::MAX - address) - 1
    } else {
        address + offset
    }
}

} // verus!
