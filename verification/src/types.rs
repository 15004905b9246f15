//! The closed table of argument types.
//!
//! Each type of the definition language has one type at the C boundary and
//! one type in Rust. The three agree in width and in signedness, so a value
//! crosses the boundary with its bits unchanged.
use crate::text::{lit, push_text, spells};
use vstd::prelude::*;

verus! {

/// A type of the definition language.
#[derive(Clone, Copy, Debug, PartialEq, Eq, Structural, Hash)]
pub enum DataType {
    U8,
    U16,
    U32,
    U64,
    I8,
    I16,
    I32,
    I64,
    /// `char*`: a string, passed by address.
    Str,
}

/// The width of an integer at the C boundary.
#[derive(Clone, Copy, Debug, PartialEq, Eq, Structural, Hash)]
pub enum Width {
    W8,
    W16,
    W32,
    W64,
}

/// A type at the C boundary.
#[derive(Clone, Copy, Debug, PartialEq, Eq, Structural, Hash)]
pub enum AbiType {
    Unsigned(Width),
    Signed(Width),
    /// An address of pointer size; the callee borrows what it points to
    /// for the duration of the call.
    Pointer,
}

/// A type of the Rust side.
#[derive(Clone, Copy, Debug, PartialEq, Eq, Structural, Hash)]
pub enum HostType {
    U8,
    U16,
    U32,
    U64,
    I8,
    I16,
    I32,
    I64,
    /// `&str`
    Str,
}

/// An argument of a probe: where it stands, its declared type, and the two
/// types that the table derives from it.
#[derive(Clone, Copy, Debug, PartialEq, Eq, Structural, Hash)]
pub struct Argument {
    pub position: usize,
    pub dsl: DataType,
    pub abi: AbiType,
    pub host: HostType,
}

/// The number of bytes of a width.
pub open spec fn width_bytes(w: Width) -> nat {
    match w {
        Width::W8 => 1,
        Width::W16 => 2,
        Width::W32 => 4,
        Width::W64 => 8,
    }
}

/// The number of bit patterns of a width: two to the number of its bits.
pub open spec fn width_modulus(w: Width) -> int {
    match w {
        Width::W8 => 0x100,
        Width::W16 => 0x1_0000,
        Width::W32 => 0x1_0000_0000,
        Width::W64 => 0x1_0000_0000_0000_0000,
    }
}

/// The type at the C boundary of a declared type.
pub open spec fn abi_of(d: DataType) -> AbiType {
    match d {
        DataType::U8 => AbiType::Unsigned(Width::W8),
        DataType::U16 => AbiType::Unsigned(Width::W16),
        DataType::U32 => AbiType::Unsigned(Width::W32),
        DataType::U64 => AbiType::Unsigned(Width::W64),
        DataType::I8 => AbiType::Signed(Width::W8),
        DataType::I16 => AbiType::Signed(Width::W16),
        DataType::I32 => AbiType::Signed(Width::W32),
        DataType::I64 => AbiType::Signed(Width::W64),
        DataType::Str => AbiType::Pointer,
    }
}

/// The Rust type of a declared type.
pub open spec fn host_of(d: DataType) -> HostType {
    match d {
        DataType::U8 => HostType::U8,
        DataType::U16 => HostType::U16,
        DataType::U32 => HostType::U32,
        DataType::U64 => HostType::U64,
        DataType::I8 => HostType::I8,
        DataType::I16 => HostType::I16,
        DataType::I32 => HostType::I32,
        DataType::I64 => HostType::I64,
        DataType::Str => HostType::Str,
    }
}

/// The annotated argument at `position` with declared type `d`.
pub open spec fn argument_of(position: int, d: DataType) -> Argument {
    Argument { position: position as usize, dsl: d, abi: abi_of(d), host: host_of(d) }
}

/// The spelling of a declared type in a definition file.
pub open spec fn dsl_name(d: DataType) -> Seq<u8> {
    match d {
        DataType::U8 => lit("uint8_t"@),
        DataType::U16 => lit("uint16_t"@),
        DataType::U32 => lit("uint32_t"@),
        DataType::U64 => lit("uint64_t"@),
        DataType::I8 => lit("int8_t"@),
        DataType::I16 => lit("int16_t"@),
        DataType::I32 => lit("int32_t"@),
        DataType::I64 => lit("int64_t"@),
        DataType::Str => lit("char*"@),
    }
}

/// The declared type that `name` spells, if any.
pub open spec fn type_named(name: Seq<u8>) -> Option<DataType> {
    if name == dsl_name(DataType::U8) {
        Some(DataType::U8)
    } else if name == dsl_name(DataType::U16) {
        Some(DataType::U16)
    } else if name == dsl_name(DataType::U32) {
        Some(DataType::U32)
    } else if name == dsl_name(DataType::U64) {
        Some(DataType::U64)
    } else if name == dsl_name(DataType::I8) {
        Some(DataType::I8)
    } else if name == dsl_name(DataType::I16) {
        Some(DataType::I16)
    } else if name == dsl_name(DataType::I32) {
        Some(DataType::I32)
    } else if name == dsl_name(DataType::I64) {
        Some(DataType::I64)
    } else if name == dsl_name(DataType::Str) {
        Some(DataType::Str)
    } else {
        None
    }
}

/// The spelling of a boundary type in C.
pub open spec fn c_name(a: AbiType) -> Seq<u8> {
    match a {
        AbiType::Unsigned(Width::W8) => lit("uint8_t"@),
        AbiType::Unsigned(Width::W16) => lit("uint16_t"@),
        AbiType::Unsigned(Width::W32) => lit("uint32_t"@),
        AbiType::Unsigned(Width::W64) => lit("uint64_t"@),
        AbiType::Signed(Width::W8) => lit("int8_t"@),
        AbiType::Signed(Width::W16) => lit("int16_t"@),
        AbiType::Signed(Width::W32) => lit("int32_t"@),
        AbiType::Signed(Width::W64) => lit("int64_t"@),
        AbiType::Pointer => lit("const char*"@),
    }
}

/// The spelling of a boundary type in a Rust foreign declaration.
pub open spec fn ffi_name(a: AbiType) -> Seq<u8> {
    match a {
        AbiType::Unsigned(Width::W8) => lit("u8"@),
        AbiType::Unsigned(Width::W16) => lit("u16"@),
        AbiType::Unsigned(Width::W32) => lit("u32"@),
        AbiType::Unsigned(Width::W64) => lit("u64"@),
        AbiType::Signed(Width::W8) => lit("i8"@),
        AbiType::Signed(Width::W16) => lit("i16"@),
        AbiType::Signed(Width::W32) => lit("i32"@),
        AbiType::Signed(Width::W64) => lit("i64"@),
        AbiType::Pointer => lit("*const ::std::os::raw::c_char"@),
    }
}

/// The spelling of a Rust type.
pub open spec fn host_name(h: HostType) -> Seq<u8> {
    match h {
        HostType::U8 => lit("u8"@),
        HostType::U16 => lit("u16"@),
        HostType::U32 => lit("u32"@),
        HostType::U64 => lit("u64"@),
        HostType::I8 => lit("i8"@),
        HostType::I16 => lit("i16"@),
        HostType::I32 => lit("i32"@),
        HostType::I64 => lit("i64"@),
        HostType::Str => lit("&str"@),
    }
}

impl AbiType {
    /// The number of bytes that a value of this type occupies; an address
    /// occupies eight.
    pub open spec fn bytes(self) -> nat {
        match self {
            AbiType::Unsigned(w) => width_bytes(w),
            AbiType::Signed(w) => width_bytes(w),
            AbiType::Pointer => 8,
        }
    }

    /// Whether this type is a signed integer.
    pub open spec fn signed(self) -> bool {
        self is Signed
    }

    /// The number of bit patterns of this type.
    pub open spec fn modulus(self) -> int {
        match self {
            AbiType::Unsigned(w) => width_modulus(w),
            AbiType::Signed(w) => width_modulus(w),
            AbiType::Pointer => 0x1_0000_0000_0000_0000,
        }
    }

    /// The least value of this type.
    pub open spec fn least(self) -> int {
        if self.signed() {
            -(self.modulus() / 2)
        } else {
            0
        }
    }

    /// The greatest value of this type.
    pub open spec fn greatest(self) -> int {
        if self.signed() {
            self.modulus() / 2 - 1
        } else {
            self.modulus() - 1
        }
    }

    /// Whether `value` is a value of this type.
    pub open spec fn holds(self, value: int) -> bool {
        self.least() <= value <= self.greatest()
    }

    /// The bit pattern of `value` in this type, read as a natural number:
    /// a negative value is stored in two's complement.
    pub open spec fn pattern(self, value: int) -> int {
        if value < 0 {
            value + self.modulus()
        } else {
            value
        }
    }

    /// The value that the bit pattern `bits` stands for in this type.
    pub open spec fn value(self, bits: int) -> int {
        if self.signed() && bits > self.greatest() {
            bits - self.modulus()
        } else {
            bits
        }
    }

    /// The number of bytes of this type.
    pub fn byte_width(self) -> (r: usize)
        ensures
            r == self.bytes(),
    {
        match self {
            AbiType::Unsigned(w) | AbiType::Signed(w) => match w {
                Width::W8 => 1,
                Width::W16 => 2,
                Width::W32 => 4,
                Width::W64 => 8,
            },
            AbiType::Pointer => 8,
        }
    }

    /// Whether this type is a signed integer.
    pub fn is_signed(self) -> (r: bool)
        ensures
            r == self.signed(),
    {
        match self {
            AbiType::Signed(_) => true,
            _ => false,
        }
    }

    /// The greatest bit pattern of this type.
    pub fn max_pattern(self) -> (r: u64)
        ensures
            r == self.modulus() - 1,
    {
        match self {
            AbiType::Unsigned(w) | AbiType::Signed(w) => match w {
                Width::W8 => 0xff,
                Width::W16 => 0xffff,
                Width::W32 => 0xffff_ffff,
                Width::W64 => 0xffff_ffff_ffff_ffff,
            },
            AbiType::Pointer => 0xffff_ffff_ffff_ffff,
        }
    }

    /// Stores `value` in a slot of this type. `None` when the type does not
    /// hold the value.
    pub fn store(self, value: i128) -> (r: Option<u64>)
        ensures
            self.holds(value as int) ==> r == Some(self.pattern(value as int) as u64),
            !self.holds(value as int) ==> r is None,
    {
        let top: i128 = self.max_pattern() as i128;
        let signed = self.is_signed();
        if signed {
            let half: i128 = (top + 1) / 2;
            if value < -half || value >= half {
                None
            } else if value < 0 {
                Some((value + top + 1) as u64)
            } else {
                Some(value as u64)
            }
        } else if value < 0 || value > top {
            None
        } else {
            Some(value as u64)
        }
    }

    /// Reads the value in a slot of this type. `None` when `bits` is not a
    /// bit pattern of the type's width.
    pub fn load(self, bits: u64) -> (r: Option<i128>)
        ensures
            bits < self.modulus() ==> r == Some(self.value(bits as int) as i128),
            bits >= self.modulus() ==> r is None,
    {
        let top: u64 = self.max_pattern();
        if bits > top {
            None
        } else if self.is_signed() && bits > top / 2 {
            Some(bits as i128 - top as i128 - 1)
        } else {
            Some(bits as i128)
        }
    }
}

impl HostType {
    /// The number of bytes that a value of this type occupies when it is
    /// passed: a string is passed as an address of eight bytes.
    pub open spec fn bytes(self) -> nat {
        match self {
            HostType::U8 | HostType::I8 => 1,
            HostType::U16 | HostType::I16 => 2,
            HostType::U32 | HostType::I32 => 4,
            HostType::U64 | HostType::I64 => 8,
            HostType::Str => 8,
        }
    }

    /// Whether this type is a signed integer.
    pub open spec fn signed(self) -> bool {
        self is I8 || self is I16 || self is I32 || self is I64
    }

    /// Whether this type is an integer.
    pub open spec fn is_integer(self) -> bool {
        !(self is Str)
    }

    /// The least value of this type; of a string, the least address.
    pub open spec fn least(self) -> int {
        match self {
            HostType::I8 => -0x80,
            HostType::I16 => -0x8000,
            HostType::I32 => -0x8000_0000,
            HostType::I64 => -0x8000_0000_0000_0000,
            _ => 0,
        }
    }

    /// The greatest value of this type; of a string, the greatest address.
    pub open spec fn greatest(self) -> int {
        match self {
            HostType::U8 => 0xff,
            HostType::U16 => 0xffff,
            HostType::U32 => 0xffff_ffff,
            HostType::U64 => 0xffff_ffff_ffff_ffff,
            HostType::I8 => 0x7f,
            HostType::I16 => 0x7fff,
            HostType::I32 => 0x7fff_ffff,
            HostType::I64 => 0x7fff_ffff_ffff_ffff,
            HostType::Str => 0xffff_ffff_ffff_ffff,
        }
    }

    /// Whether `value` is a value of this type.
    pub open spec fn holds(self, value: int) -> bool {
        self.least() <= value <= self.greatest()
    }

    /// The number of bytes of this type.
    pub fn byte_width(self) -> (r: usize)
        ensures
            r == self.bytes(),
    {
        match self {
            HostType::U8 | HostType::I8 => 1,
            HostType::U16 | HostType::I16 => 2,
            HostType::U32 | HostType::I32 => 4,
            HostType::U64 | HostType::I64 => 8,
            HostType::Str => 8,
        }
    }

    /// Whether this type is a signed integer.
    pub fn is_signed(self) -> (r: bool)
        ensures
            r == self.signed(),
    {
        match self {
            HostType::I8 | HostType::I16 | HostType::I32 | HostType::I64 => true,
            _ => false,
        }
    }

    /// Appends the spelling of this type to `out`.
    pub fn push_name(self, out: &mut Vec<u8>)
        ensures
            final(out)@ == old(out)@ + host_name(self),
    {
        match self {
            HostType::U8 => push_text(out, "u8"),
            HostType::U16 => push_text(out, "u16"),
            HostType::U32 => push_text(out, "u32"),
            HostType::U64 => push_text(out, "u64"),
            HostType::I8 => push_text(out, "i8"),
            HostType::I16 => push_text(out, "i16"),
            HostType::I32 => push_text(out, "i32"),
            HostType::I64 => push_text(out, "i64"),
            HostType::Str => push_text(out, "&str"),
        }
    }
}

impl AbiType {
    /// Appends the C spelling of this type to `out`.
    pub fn push_c_name(self, out: &mut Vec<u8>)
        ensures
            final(out)@ == old(out)@ + c_name(self),
    {
        match self {
            AbiType::Unsigned(Width::W8) => push_text(out, "uint8_t"),
            AbiType::Unsigned(Width::W16) => push_text(out, "uint16_t"),
            AbiType::Unsigned(Width::W32) => push_text(out, "uint32_t"),
            AbiType::Unsigned(Width::W64) => push_text(out, "uint64_t"),
            AbiType::Signed(Width::W8) => push_text(out, "int8_t"),
            AbiType::Signed(Width::W16) => push_text(out, "int16_t"),
            AbiType::Signed(Width::W32) => push_text(out, "int32_t"),
            AbiType::Signed(Width::W64) => push_text(out, "int64_t"),
            AbiType::Pointer => push_text(out, "const char*"),
        }
    }

    /// Appends the spelling of this type in a Rust foreign declaration to
    /// `out`.
    pub fn push_ffi_name(self, out: &mut Vec<u8>)
        ensures
            final(out)@ == old(out)@ + ffi_name(self),
    {
        match self {
            AbiType::Unsigned(Width::W8) => push_text(out, "u8"),
            AbiType::Unsigned(Width::W16) => push_text(out, "u16"),
            AbiType::Unsigned(Width::W32) => push_text(out, "u32"),
            AbiType::Unsigned(Width::W64) => push_text(out, "u64"),
            AbiType::Signed(Width::W8) => push_text(out, "i8"),
            AbiType::Signed(Width::W16) => push_text(out, "i16"),
            AbiType::Signed(Width::W32) => push_text(out, "i32"),
            AbiType::Signed(Width::W64) => push_text(out, "i64"),
            AbiType::Pointer => push_text(out, "*const ::std::os::raw::c_char"),
        }
    }
}

impl DataType {
    /// The type at the C boundary.
    pub fn abi(self) -> (r: AbiType)
        ensures
            r == abi_of(self),
    {
        match self {
            DataType::U8 => AbiType::Unsigned(Width::W8),
            DataType::U16 => AbiType::Unsigned(Width::W16),
            DataType::U32 => AbiType::Unsigned(Width::W32),
            DataType::U64 => AbiType::Unsigned(Width::W64),
            DataType::I8 => AbiType::Signed(Width::W8),
            DataType::I16 => AbiType::Signed(Width::W16),
            DataType::I32 => AbiType::Signed(Width::W32),
            DataType::I64 => AbiType::Signed(Width::W64),
            DataType::Str => AbiType::Pointer,
        }
    }

    /// The Rust type.
    pub fn host(self) -> (r: HostType)
        ensures
            r == host_of(self),
    {
        match self {
            DataType::U8 => HostType::U8,
            DataType::U16 => HostType::U16,
            DataType::U32 => HostType::U32,
            DataType::U64 => HostType::U64,
            DataType::I8 => HostType::I8,
            DataType::I16 => HostType::I16,
            DataType::I32 => HostType::I32,
            DataType::I64 => HostType::I64,
            DataType::Str => HostType::Str,
        }
    }

    /// The number of bytes of a value of this type at the C boundary.
    pub fn byte_width(self) -> (r: usize)
        ensures
            r == abi_of(self).bytes(),
    {
        self.abi().byte_width()
    }

    /// The annotated argument of this type at `position`.
    pub fn argument(self, position: usize) -> (r: Argument)
        ensures
            r == argument_of(position as int, self),
    {
        Argument { position, dsl: self, abi: self.abi(), host: self.host() }
    }

    /// The type that `name` spells in a definition file. `None` when the
    /// table holds no such type.
    pub fn from_name(name: &[u8]) -> (r: Option<DataType>)
        ensures
            r == type_named(name@),
    {
        if spells(name, "uint8_t") {
            Some(DataType::U8)
        } else if spells(name, "uint16_t") {
            Some(DataType::U16)
        } else if spells(name, "uint32_t") {
            Some(DataType::U32)
        } else if spells(name, "uint64_t") {
            Some(DataType::U64)
        } else if spells(name, "int8_t") {
            Some(DataType::I8)
        } else if spells(name, "int16_t") {
            Some(DataType::I16)
        } else if spells(name, "int32_t") {
            Some(DataType::I32)
        } else if spells(name, "int64_t") {
            Some(DataType::I64)
        } else if spells(name, "char*") {
            Some(DataType::Str)
        } else {
            None
        }
    }

    /// Appends the spelling of this type in a definition file to `out`.
    pub fn push_name(self, out: &mut Vec<u8>)
        ensures
            final(out)@ == old(out)@ + dsl_name(self),
    {
        match self {
            DataType::U8 => push_text(out, "uint8_t"),
            DataType::U16 => push_text(out, "uint16_t"),
            DataType::U32 => push_text(out, "uint32_t"),
            DataType::U64 => push_text(out, "uint64_t"),
            DataType::I8 => push_text(out, "int8_t"),
            DataType::I16 => push_text(out, "int16_t"),
            DataType::I32 => push_text(out, "int32_t"),
            DataType::I64 => push_text(out, "int64_t"),
            DataType::Str => push_text(out, "char*"),
        }
    }
}

/// The three types of a table entry agree in width and in signedness, and
/// the Rust type and the boundary type hold the same values.
pub proof fn lemma_table_preserves_layout(d: DataType)
    ensures
        abi_of(d).bytes() == host_of(d).bytes(),
        abi_of(d).signed() == host_of(d).signed(),
        abi_of(d).least() == host_of(d).least(),
        abi_of(d).greatest() == host_of(d).greatest(),
        abi_of(d) is Pointer <==> d is Str,
        host_of(d) is Str <==> d is Str,
{
}

/// No two declared types share a boundary type or a Rust type.
pub proof fn lemma_table_injective(a: DataType, b: DataType)
    ensures
        abi_of(a) == abi_of(b) ==> a == b,
        host_of(a) == host_of(b) ==> a == b,
{
}

/// A value of the Rust type of `d` crosses the boundary unchanged: its bit
/// pattern fits the slot of the boundary type, and reading the slot gives the
/// value back, sign included. This holds of the least and of the greatest
/// value of the type in particular.
pub proof fn lemma_value_round_trip(d: DataType, value: int)
    requires
        host_of(d).holds(value),
    ensures
        abi_of(d).holds(value),
        0 <= abi_of(d).pattern(value) < abi_of(d).modulus(),
        abi_of(d).value(abi_of(d).pattern(value)) == value,
        host_of(d).holds(host_of(d).least()),
        host_of(d).holds(host_of(d).greatest()),
{
}

/// Every bit pattern of the boundary type of `d` stands for one value of
/// the Rust type of `d`, and that value has this very pattern.
pub proof fn lemma_pattern_round_trip(d: DataType, bits: int)
    requires
        0 <= bits < abi_of(d).modulus(),
    ensures
        host_of(d).holds(abi_of(d).value(bits)),
        abi_of(d).pattern(abi_of(d).value(bits)) == bits,
{
}

} // verus!
