use vstd::prelude::*;

verus! {

/// The first byte of an encoded value, by the kind it announces.
#[derive(Clone, Copy, Debug, PartialEq, Eq, Structural)]
pub enum Marker {
    FixPos(u8),
    FixMap(u8),
    FixArray(u8),
    FixStr(u8),
    Null,
    Reserved,
    False,
    True,
    Bin8,
    Bin16,
    Bin32,
    Ext8,
    Ext16,
    Ext32,
    F32,
    F64,
    U8,
    U16,
    U32,
    U64,
    I8,
    I16,
    I32,
    I64,
    FixExt1,
    FixExt2,
    FixExt4,
    FixExt8,
    FixExt16,
    Str8,
    Str16,
    Str32,
    Array16,
    Array32,
    Map16,
    Map32,
    FixNeg(i8),
}

/// The shape that a decoding target asks for.
#[derive(Clone, Copy, Debug, PartialEq, Eq, Structural)]
pub enum Type {
    Bool,
    Usize,
    U8,
    U16,
    U32,
    U64,
    Isize,
    I8,
    I16,
    I32,
    I64,
    F32,
    F64,
    Char,
    Str,
    String,
    Unit,
    Option,
    Sequence,
    Mapping,
    UnitStruct,
    NewtypeStruct,
    TupleStruct,
    Struct,
    FieldName,
    Tuple,
    Enum,
    VariantName,
    StructVariant,
    TupleVariant,
    UnitVariant,
    Bytes,
}

/// The marker that stands for a shape in a type mismatch.
pub open spec fn marker_of(ty: Type) -> Marker {
    match ty {
        Type::Bool => Marker::True,
        Type::Usize => Marker::FixPos(0),
        Type::U8 => Marker::U8,
        Type::U16 => Marker::U16,
        Type::U32 => Marker::U32,
        Type::U64 => Marker::U64,
        Type::Isize => Marker::FixNeg(0),
        Type::I8 => Marker::I8,
        Type::I16 => Marker::I16,
        Type::I32 => Marker::I32,
        Type::I64 => Marker::I64,
        Type::F32 => Marker::F32,
        Type::F64 => Marker::F64,
        Type::Char | Type::Str | Type::String | Type::FieldName | Type::VariantName => Marker::Str32,
        Type::Unit | Type::Option | Type::UnitStruct => Marker::Null,
        Type::Mapping | Type::Struct | Type::StructVariant => Marker::Map32,
        Type::Sequence | Type::NewtypeStruct | Type::TupleStruct | Type::Tuple | Type::Enum
        | Type::TupleVariant | Type::UnitVariant | Type::Bytes => Marker::Array32,
    }
}

} // verus!
