use soul_mir::backend::GenericSubstitute;
use soul_mir::layout::{
    Alignment, LayoutContext, LayoutError, Sizeof, StructInfo, ThirType, ThirTypeKind, UnionInfo,
};
use soul_mir::types::ArrayKind;

fn ty(kind: ThirTypeKind) -> ThirType {
    ThirType { kind, has_generics: false }
}

// Type ids:
//   0 i32, 1 u8, 2 struct {i32, u8, i64}, 3 union {i32 | u8} tagged by u8,
//   4 none, 5 [4]i32, 6 [&mut]i32, 7 &i32, 8 error type, 9 generic 0,
//   10 trait, 11 packed struct {u8, i32}, 12 i64, 13 struct 5 (missing),
//   14 empty struct, 15 union 3 (missing), 16 optional, 17 [4]struct
fn context() -> LayoutContext {
    LayoutContext {
        types: vec![
            ty(ThirTypeKind::Primitive { bits: 32 }),
            ty(ThirTypeKind::Primitive { bits: 8 }),
            ty(ThirTypeKind::Struct(0)),
            ty(ThirTypeKind::Union(0)),
            ty(ThirTypeKind::NoneType),
            ty(ThirTypeKind::Array { kind: ArrayKind::StackArray(4), element: 0 }),
            ty(ThirTypeKind::Array { kind: ArrayKind::MutSlice, element: 0 }),
            ty(ThirTypeKind::Ref(0)),
            ty(ThirTypeKind::Error),
            ty(ThirTypeKind::Generic(0)),
            ty(ThirTypeKind::Trait(0)),
            ty(ThirTypeKind::Struct(1)),
            ty(ThirTypeKind::Primitive { bits: 64 }),
            ty(ThirTypeKind::Struct(5)),
            ty(ThirTypeKind::Struct(2)),
            ty(ThirTypeKind::Union(3)),
            ty(ThirTypeKind::Optional(0)),
            ty(ThirTypeKind::Array { kind: ArrayKind::StackArray(4), element: 2 }),
        ],
        structs: vec![
            StructInfo { packed: false, fields: vec![0, 1, 12] },
            StructInfo { packed: true, fields: vec![1, 0] },
            StructInfo { packed: false, fields: vec![] },
        ],
        unions: vec![UnionInfo { variants: vec![0, 1] }],
        index_type: 1,
        ptr_bits: 64,
        int_bits: 64,
    }
}

fn no_generics() -> GenericSubstitute {
    GenericSubstitute::new(&[], &[])
}

#[test]
fn primitive_size_is_its_width() {
    let c = context();
    assert_eq!(c.sizeof_bit(0, &no_generics()), Ok(Sizeof { bits: 32, alignment: Alignment::Bit32 }));
    assert_eq!(c.sizeof(0, &no_generics()), Ok(4));
}

#[test]
fn struct_fields_are_padded_and_the_size_rounded_to_the_alignment() {
    let c = context();
    // i32 at 0, u8 at 32, padding to 64, i64 at 64: 128 bits, aligned to 64.
    assert_eq!(c.sizeof_bit(2, &no_generics()), Ok(Sizeof { bits: 128, alignment: Alignment::Bit64 }));
    assert_eq!(c.sizeof(2, &no_generics()), Ok(16));
}

#[test]
fn packed_struct_has_no_padding() {
    let c = context();
    assert_eq!(c.sizeof_bit(11, &no_generics()), Ok(Sizeof { bits: 40, alignment: Alignment::Bit32 }));
}

#[test]
fn union_is_tag_padding_and_payload_cells() {
    let c = context();
    // tag 8 bits, padded to 32, one 32-bit cell: 64 bits aligned to 32.
    assert_eq!(c.sizeof_bit(3, &no_generics()), Ok(Sizeof { bits: 64, alignment: Alignment::Bit32 }));
}

#[test]
fn arrays_slices_and_references() {
    let c = context();
    assert_eq!(c.sizeof_bit(5, &no_generics()), Ok(Sizeof { bits: 128, alignment: Alignment::Bit64 }));
    assert_eq!(c.sizeof_bit(6, &no_generics()), Ok(Sizeof { bits: 128, alignment: Alignment::Bit64 }));
    assert_eq!(c.sizeof_bit(7, &no_generics()), Ok(Sizeof { bits: 64, alignment: Alignment::Bit64 }));
    assert_eq!(c.sizeof_bit(17, &no_generics()), Ok(Sizeof { bits: 512, alignment: Alignment::Bit64 }));
}

#[test]
fn none_type_has_no_bits() {
    let c = context();
    assert_eq!(c.sizeof_bit(4, &no_generics()), Ok(Sizeof { bits: 0, alignment: Alignment::Null }));
}

#[test]
fn generic_resolves_through_the_substitution() {
    let c = context();
    let generics = GenericSubstitute::new(&[0], &[1]);
    assert_eq!(c.sizeof_bit(9, &generics), Ok(Sizeof { bits: 8, alignment: Alignment::Bit8 }));
    assert_eq!(c.sizeof_bit(9, &no_generics()), Err(LayoutError::GenericNotFound { id: 0 }));
}

#[test]
fn types_without_a_size_are_refused() {
    let c = context();
    assert_eq!(c.sizeof_bit(8, &no_generics()), Err(LayoutError::NoSize { id: 8 }));
    assert_eq!(c.sizeof_bit(10, &no_generics()), Err(LayoutError::TraitHasNoSize { id: 0 }));
    assert_eq!(c.sizeof_bit(99, &no_generics()), Err(LayoutError::TypeNotFound { id: 99 }));
    assert_eq!(c.sizeof_bit(13, &no_generics()), Err(LayoutError::StructNotFound { id: 5 }));
    assert_eq!(c.sizeof_bit(15, &no_generics()), Err(LayoutError::UnionNotFound { id: 3 }));
    assert_eq!(c.sizeof(8, &no_generics()), Err(LayoutError::NoSize { id: 8 }));
}

#[test]
fn alignment_classes_and_padding() {
    assert_eq!(Alignment::from_bits(16), Some(Alignment::Bit16));
    assert_eq!(Alignment::from_bits(0), Some(Alignment::Null));
    assert_eq!(Alignment::from_bits(12), None);
    assert_eq!(Alignment::Bit64.as_u32(), 64);
    assert_eq!(Alignment::Null.as_u32(), 0);
    assert_eq!(Alignment::max(), Alignment::Bit64);
    assert_eq!(Alignment::Bit32.get_padding(8), 24);
    assert_eq!(Alignment::Bit64.get_padding(64), 0);
    assert_eq!(Alignment::Bit8.get_padding(13), 3);
}

#[test]
fn padded_offset_lands_on_the_alignment() {
    for offset in [0u32, 1, 7, 8, 33, 100] {
        for a in [Alignment::Bit8, Alignment::Bit16, Alignment::Bit32, Alignment::Bit64] {
            let padded = offset + a.get_padding(offset);
            assert_eq!(padded % a.as_u32(), 0);
            assert!(a.get_padding(offset) < a.as_u32());
        }
    }
}

#[test]
fn struct_and_union_sizes_are_multiples_of_their_alignment() {
    let c = context();
    for id in [2usize, 3, 17] {
        let s = c.sizeof_bit(id, &no_generics()).unwrap();
        assert_eq!(s.bits % s.alignment.as_u32(), 0);
    }
}

#[test]
fn alignment_classes_round_trip_through_their_bit_counts() {
    for a in [Alignment::Null, Alignment::Bit8, Alignment::Bit16, Alignment::Bit32, Alignment::Bit64] {
        assert_eq!(Alignment::from_bits(a.as_u32()), Some(a));
    }
}

#[test]
fn generic_bound_to_a_struct_has_the_struct_layout() {
    // A substitution that binds generic 0 to the struct type.
    let c = context();
    let generics = GenericSubstitute::new(&[0], &[2]);
    assert_eq!(c.sizeof_bit(9, &generics), Ok(Sizeof { bits: 128, alignment: Alignment::Bit64 }));
    assert_eq!(c.sizeof(9, &generics), Ok(16));
}
