//! Type layout: how many bits a value of a type occupies and how it is
//! aligned, following the rules of the IR backend.

use vstd::prelude::*;
use crate::backend::GenericSubstitute;
use crate::types::ArrayKind;

verus! {

/// The alignment classes a value can have, measured in bits.
#[derive(Debug, Clone, Copy, PartialEq, Eq, Structural)]
pub enum Alignment {
    Null,
    Bit8,
    Bit16,
    Bit32,
    Bit64,
}

/// The alignment class whose bit count is `size`.
pub open spec fn spec_from_bits(size: int) -> Option<Alignment> {
    if size == 0 {
        Some(Alignment::Null)
    } else if size == 8 {
        Some(Alignment::Bit8)
    } else if size == 16 {
        Some(Alignment::Bit16)
    } else if size == 32 {
        Some(Alignment::Bit32)
    } else if size == 64 {
        Some(Alignment::Bit64)
    } else {
        None
    }
}

/// The padding that moves `offset` up to the next multiple of the alignment.
pub open spec fn padding_for(a: Alignment, offset: int) -> int {
    let align = alignment_bits(a) as int;
    (align - offset % align) % align
}

/// `size` rounded up to a multiple of `align`.
pub open spec fn round_up(size: int, align: int) -> int {
    (size + align - 1) / align * align
}

/// An alignment class is recovered from its bit count.
pub proof fn law_alignment_bits_roundtrip(a: Alignment)
    ensures
        spec_from_bits(alignment_bits(a) as int) == Some(a),
{
}

/// Padding lands on the next multiple of the alignment, and is less than it.
pub proof fn lemma_padding_aligns(offset: int, align: int)
    requires
        0 <= offset,
        0 < align,
    ensures
        0 <= (align - offset % align) % align < align,
        (offset + (align - offset % align) % align) % align == 0,
{
    let r = offset % align;
    assert(0 <= r < align) by (nonlinear_arith)
        requires
            0 < align,
            r == offset % align,
    ;
    if r == 0 {
        assert((align - r) % align == 0) by (nonlinear_arith)
            requires
                0 < align,
                r == 0,
        ;
        assert((offset + 0) % align == 0);
    } else {
        assert((align - r) % align == align - r) by (nonlinear_arith)
            requires
                0 < r < align,
        ;
        assert((offset + (align - r)) % align == 0) by (nonlinear_arith)
            requires
                0 < align,
                r == offset % align,
                0 < r < align,
                0 <= offset,
        ;
    }
}

/// A field of a struct that is not packed starts at the least offset that
/// is a multiple of its alignment and not before the end of the field
/// before it.
pub proof fn law_field_offset_is_least_aligned(a: Alignment, offset: int)
    requires
        0 <= offset,
        alignment_bits(a) > 0,
    ensures
        ({
            let al = alignment_bits(a) as int;
            let p = offset + padding_for(a, offset);
            &&& offset <= p
            &&& p % al == 0
            &&& forall|o: int| offset <= o < p ==> #[trigger] (o % al) != 0
        }),
{
    let al = alignment_bits(a) as int;
    lemma_padding_aligns(offset, al);
    let p = offset + padding_for(a, offset);
    assert forall|o: int| offset <= o < p implies #[trigger] (o % al) != 0 by {
        if o % al == 0 {
            assert(false) by (nonlinear_arith)
                requires
                    o % al == 0,
                    p % al == 0,
                    o < p,
                    p - o < al,
                    0 < al,
            ;
        }
    }
}

/// Rounding up gives the least multiple of `align` that is at least `size`.
pub proof fn lemma_round_up(size: int, align: int)
    requires
        0 <= size,
        0 < align,
    ensures
        size <= round_up(size, align) <= size + align - 1,
        round_up(size, align) % align == 0,
{
    let q = (size + align - 1) / align;
    assert(q * align <= size + align - 1 && size + align - 1 < q * align + align) by (nonlinear_arith)
        requires
            0 < align,
            0 <= size,
            q == (size + align - 1) / align,
    ;
    assert((q * align) % align == 0) by (nonlinear_arith)
        requires
            0 < align,
    ;
}

/// The number of bits an alignment class stands for.
pub open spec fn alignment_bits(a: Alignment) -> u32 {
    match a {
        Alignment::Null => 0,
        Alignment::Bit8 => 8,
        Alignment::Bit16 => 16,
        Alignment::Bit32 => 32,
        Alignment::Bit64 => 64,
    }
}

impl Alignment {
    /// The alignment whose bit count is `size`, if there is one.
    pub fn from_bits(size: u32) -> (res: Option<Alignment>)
        ensures
            res matches Some(a) ==> alignment_bits(a) == size,
            res is None <==> !(size == 0 || size == 8 || size == 16 || size == 32 || size == 64),
    {
        match size {
            0 => Some(Alignment::Null),
            8 => Some(Alignment::Bit8),
            16 => Some(Alignment::Bit16),
            32 => Some(Alignment::Bit32),
            64 => Some(Alignment::Bit64),
            _ => None,
        }
    }

    /// The largest alignment class.
    pub fn max() -> (res: Alignment)
        ensures
            res == Alignment::Bit64,
            forall|a: Alignment| alignment_bits(a) <= alignment_bits(res),
    {
        Alignment::Bit64
    }

    /// How many bits must follow `offset` for the next value to start on
    /// this alignment.
    pub fn get_padding(self, offset: u32) -> (res: u32)
        requires
            alignment_bits(self) > 0,
        ensures
            res == padding_for(self, offset as int),
            res < alignment_bits(self),
            (offset + res) % (alignment_bits(self) as int) == 0,
    {
        let align = self.as_u32();
        let res = (align - (offset % align)) % align;
        proof {
            lemma_padding_aligns(offset as int, align as int);
        }
        res
    }

    pub fn as_u32(self) -> (bits: u32)
        ensures
            bits == alignment_bits(self),
    {
        match self {
            Alignment::Null => 0,
            Alignment::Bit8 => 8,
            Alignment::Bit16 => 16,
            Alignment::Bit32 => 32,
            Alignment::Bit64 => 64,
        }
    }
}

/// The size of a value in bits, and its alignment.
#[derive(Debug, Clone, Copy, PartialEq, Eq, Structural)]
pub struct Sizeof {
    pub bits: u32,
    pub alignment: Alignment,
}

/// Why a type has no size.
#[derive(Debug, Clone, Copy, PartialEq, Eq, Structural)]
pub enum LayoutError {
    /// No type has this id.
    TypeNotFound { id: usize },
    /// The error type, the type of types and the never type have no size.
    NoSize { id: usize },
    /// A generic parameter that the substitution does not bind.
    GenericNotFound { id: usize },
    StructNotFound { id: usize },
    UnionNotFound { id: usize },
    /// Traits have no runtime size.
    TraitHasNoSize { id: usize },
}

/// The shape of a type, as far as its layout depends on it. Ids of other
/// types index `LayoutContext::types`; struct and union ids index
/// `structs` and `unions`.
#[derive(Debug, Clone, Copy, PartialEq, Eq, Structural)]
pub enum ThirTypeKind {
    Error,
    Type,
    Never,
    NoneType,
    /// A primitive, with its width on the target in bits.
    Primitive { bits: u8 },
    Array { kind: ArrayKind, element: usize },
    Ref(usize),
    Pointer(usize),
    Optional(usize),
    Generic(usize),
    Struct(usize),
    Enum(usize),
    Union(usize),
    Trait(usize),
}

#[derive(Debug, Clone, Copy, PartialEq, Eq, Structural)]
pub struct ThirType {
    pub kind: ThirTypeKind,
    /// Whether the type still has generic parameters of its own.
    pub has_generics: bool,
}

pub struct StructInfo {
    pub packed: bool,
    pub fields: Vec<usize>,
}

pub struct UnionInfo {
    pub variants: Vec<usize>,
}

/// The type tables and the target widths that layouts are computed from.
pub struct LayoutContext {
    pub types: Vec<ThirType>,
    pub structs: Vec<StructInfo>,
    pub unions: Vec<UnionInfo>,
    /// The type of a union's tag.
    pub index_type: usize,
    pub ptr_bits: u8,
    pub int_bits: u8,
}

/// What computing a layout comes to: a size, a refusal, or no answer at all
/// (the computation stops on an arithmetic fault, on a case it does not
/// handle, or never ends).
#[derive(Debug, Clone, Copy, PartialEq, Eq, Structural)]
pub enum Layout {
    Sized(Sizeof),
    Unsized(LayoutError),
    Diverges,
}

/// A result seen as a layout outcome.
pub open spec fn as_layout(res: Result<Sizeof, LayoutError>) -> Layout {
    match res {
        Ok(s) => Layout::Sized(s),
        Err(e) => Layout::Unsized(e),
    }
}

/// The layout of type `ty`, looking at most `fuel` levels deep; running out
/// of fuel counts as diverging.
pub open spec fn layout_of(c: LayoutContext, g: GenericSubstitute, ty: usize, fuel: nat) -> Layout
    decreases fuel, 0int,
{
    if fuel == 0 {
        Layout::Diverges
    } else if ty >= c.types@.len() {
        Layout::Unsized(LayoutError::TypeNotFound { id: ty })
    } else if c.types@[ty as int].has_generics {
        Layout::Diverges
    } else {
        let f = (fuel - 1) as nat;
        match spec_from_bits(c.ptr_bits as int) {
            None => Layout::Diverges,
            Some(ptr_align) => match c.types@[ty as int].kind {
                ThirTypeKind::Error | ThirTypeKind::Type | ThirTypeKind::Never => Layout::Unsized(
                    LayoutError::NoSize { id: ty },
                ),
                ThirTypeKind::NoneType => Layout::Sized(Sizeof { bits: 0, alignment: Alignment::Null }),
                ThirTypeKind::Primitive { bits } => match spec_from_bits(bits as int) {
                    Some(a) => Layout::Sized(Sizeof { bits: bits as u32, alignment: a }),
                    None => Layout::Diverges,
                },
                ThirTypeKind::Array { kind, element } => match kind {
                    ArrayKind::StackArray(n) => match layout_of(c, g, element, f) {
                        Layout::Sized(e) => {
                            let total = (n as u32) * e.bits;
                            if total > u32::MAX {
                                Layout::Diverges
                            } else {
                                Layout::Sized(Sizeof { bits: total as u32, alignment: ptr_align })
                            }
                        },
                        other => other,
                    },
                    _ => Layout::Sized(Sizeof { bits: (c.int_bits + c.ptr_bits) as u32, alignment: ptr_align }),
                },
                ThirTypeKind::Ref(_) | ThirTypeKind::Pointer(_) => Layout::Sized(
                    Sizeof { bits: c.ptr_bits as u32, alignment: ptr_align },
                ),
                ThirTypeKind::Optional(_) => Layout::Diverges,
                ThirTypeKind::Generic(id) => match g.spec_resolve(id) {
                    Some(t) => layout_of(c, g, t, f),
                    None => Layout::Unsized(LayoutError::GenericNotFound { id }),
                },
                ThirTypeKind::Struct(id) => struct_layout(c, g, id, f),
                ThirTypeKind::Enum(_) => Layout::Diverges,
                ThirTypeKind::Union(id) => union_layout(c, g, id, f),
                ThirTypeKind::Trait(id) => Layout::Unsized(LayoutError::TraitHasNoSize { id }),
            },
        }
    }
}

/// A struct's layout: the fields in declaration order, each (unless the
/// struct is packed) padded to its own alignment, the whole rounded up to
/// the largest field alignment.
pub open spec fn struct_layout(c: LayoutContext, g: GenericSubstitute, id: usize, fuel: nat) -> Layout
    decreases fuel, c.structs@[id as int].fields@.len() + 1,
{
    if id >= c.structs@.len() {
        Layout::Unsized(LayoutError::StructNotFound { id })
    } else {
        let s = c.structs@[id as int];
        match align_pass(c, g, s.fields@, 0, Alignment::Null, fuel) {
            Err(l) => l,
            Ok(align) => match offset_pass(c, g, s.fields@, 0, 0, s.packed, fuel) {
                Err(l) => l,
                Ok(size) => struct_finish(size, align, s.packed),
            },
        }
    }
}

/// The largest alignment among `tys[i..]`, starting from `align`; the scan
/// stops at the first field that raises it to the largest class. A field
/// without a size ends it with that field's outcome.
pub open spec fn align_pass(
    c: LayoutContext,
    g: GenericSubstitute,
    tys: Seq<usize>,
    i: int,
    align: Alignment,
    fuel: nat,
) -> Result<Alignment, Layout>
    decreases fuel, tys.len() - i,
{
    if i < 0 || i >= tys.len() {
        Ok(align)
    } else {
        match layout_of(c, g, tys[i], fuel) {
            Layout::Sized(s) => if alignment_bits(align) < alignment_bits(s.alignment) {
                if s.alignment == Alignment::Bit64 {
                    Ok(s.alignment)
                } else {
                    align_pass(c, g, tys, i + 1, s.alignment, fuel)
                }
            } else {
                align_pass(c, g, tys, i + 1, align, fuel)
            },
            other => Err(other),
        }
    }
}

/// The offset after laying out `tys[i..]` from `offset`.
pub open spec fn offset_pass(
    c: LayoutContext,
    g: GenericSubstitute,
    tys: Seq<usize>,
    i: int,
    offset: int,
    packed: bool,
    fuel: nat,
) -> Result<int, Layout>
    decreases fuel, tys.len() - i,
{
    if i < 0 || i >= tys.len() {
        Ok(offset)
    } else {
        match layout_of(c, g, tys[i], fuel) {
            Layout::Sized(s) => if !packed && alignment_bits(s.alignment) == 0 {
                Err(Layout::Diverges)
            } else {
                let padded = if packed {
                    offset
                } else {
                    offset + padding_for(s.alignment, offset)
                };
                if padded + s.bits > u32::MAX {
                    Err(Layout::Diverges)
                } else {
                    offset_pass(c, g, tys, i + 1, padded + s.bits, packed, fuel)
                }
            },
            other => Err(other),
        }
    }
}

/// A struct of `size` bits aligned to `align`.
pub open spec fn struct_finish(size: int, align: Alignment, packed: bool) -> Layout {
    let a = alignment_bits(align) as int;
    if packed {
        Layout::Sized(Sizeof { bits: size as u32, alignment: align })
    } else if a == 0 || size + a - 1 > u32::MAX {
        Layout::Diverges
    } else {
        Layout::Sized(Sizeof { bits: round_up(size, a) as u32, alignment: align })
    }
}

/// A tagged union's layout: the tag, padded to the union's alignment, then
/// an array of alignment-sized cells large enough for the largest variant;
/// the whole rounded up to the larger of the tag's and the variants'
/// alignment.
pub open spec fn union_layout(c: LayoutContext, g: GenericSubstitute, id: usize, fuel: nat) -> Layout
    decreases fuel, c.unions@[id as int].variants@.len() + 1,
{
    if id >= c.unions@.len() {
        Layout::Unsized(LayoutError::UnionNotFound { id })
    } else {
        match layout_of(c, g, c.index_type, fuel) {
            Layout::Sized(tag) => match variants_pass(c, g, c.unions@[id as int].variants@, 0, 0, Alignment::Null, fuel) {
                Err(l) => l,
                Ok(largest) => union_finish(tag, largest.0, largest.1),
            },
            other => other,
        }
    }
}

/// The largest size and the largest alignment among `tys[i..]`.
pub open spec fn variants_pass(
    c: LayoutContext,
    g: GenericSubstitute,
    tys: Seq<usize>,
    i: int,
    max_bits: int,
    max_align: Alignment,
    fuel: nat,
) -> Result<(int, Alignment), Layout>
    decreases fuel, tys.len() - i,
{
    if i < 0 || i >= tys.len() {
        Ok((max_bits, max_align))
    } else {
        match layout_of(c, g, tys[i], fuel) {
            Layout::Sized(s) => variants_pass(
                c,
                g,
                tys,
                i + 1,
                if s.bits > max_bits {
                    s.bits as int
                } else {
                    max_bits
                },
                if alignment_bits(s.alignment) > alignment_bits(max_align) {
                    s.alignment
                } else {
                    max_align
                },
                fuel,
            ),
            other => Err(other),
        }
    }
}

/// The cell width of a union's payload array: its alignment, or a byte.
pub open spec fn union_cell_bits(max_align: Alignment) -> int {
    if alignment_bits(max_align) == 0 {
        8
    } else {
        alignment_bits(max_align) as int
    }
}

pub open spec fn union_finish(tag: Sizeof, max_bits: int, max_align: Alignment) -> Layout {
    let cell = union_cell_bits(max_align);
    let total_align = if alignment_bits(tag.alignment) > alignment_bits(max_align) {
        tag.alignment
    } else {
        max_align
    };
    let ta = alignment_bits(total_align) as int;
    if max_bits != 0 && max_bits + cell - 1 > u32::MAX {
        Layout::Diverges
    } else if ta == 0 {
        Layout::Diverges
    } else {
        let count = if max_bits == 0 {
            0
        } else {
            (max_bits + cell - 1) / cell
        };
        let unaligned = tag.bits + padding_for(total_align, tag.bits as int) + count * cell;
        if unaligned + ta - 1 > u32::MAX {
            Layout::Diverges
        } else {
            Layout::Sized(Sizeof { bits: round_up(unaligned, ta) as u32, alignment: total_align })
        }
    }
}

/// Once looking `f1` levels deep gives an answer, looking deeper gives the
/// same answer: a type's layout does not depend on how deep one looks.
pub proof fn law_layout_depth_independent(c: LayoutContext, g: GenericSubstitute, ty: usize, f1: nat, f2: nat)
    requires
        f1 <= f2,
        !(layout_of(c, g, ty, f1) is Diverges),
    ensures
        layout_of(c, g, ty, f2) == layout_of(c, g, ty, f1),
    decreases f1, 0int,
{
    let f = (f1 - 1) as nat;
    let h = (f2 - 1) as nat;
    if ty < c.types@.len() && !c.types@[ty as int].has_generics && spec_from_bits(c.ptr_bits as int) is Some {
        match c.types@[ty as int].kind {
            ThirTypeKind::Array { kind, element } => {
                if kind is StackArray {
                    law_layout_depth_independent(c, g, element, f, h);
                }
            },
            ThirTypeKind::Generic(id) => {
                if let Some(t) = g.spec_resolve(id) {
                    law_layout_depth_independent(c, g, t, f, h);
                }
            },
            ThirTypeKind::Struct(id) => {
                lemma_struct_depth(c, g, id, f, h);
            },
            ThirTypeKind::Union(id) => {
                lemma_union_depth(c, g, id, f, h);
            },
            _ => {},
        }
    }
}

proof fn lemma_struct_depth(c: LayoutContext, g: GenericSubstitute, id: usize, f1: nat, f2: nat)
    requires
        f1 <= f2,
        !(struct_layout(c, g, id, f1) is Diverges),
    ensures
        struct_layout(c, g, id, f2) == struct_layout(c, g, id, f1),
    decreases f1, c.structs@[id as int].fields@.len() + 1,
{
    if id < c.structs@.len() {
        let st = c.structs@[id as int];
        lemma_align_depth(c, g, st.fields@, 0, Alignment::Null, f1, f2);
        if align_pass(c, g, st.fields@, 0, Alignment::Null, f1) is Ok {
            lemma_offset_depth(c, g, st.fields@, 0, 0, st.packed, f1, f2);
        }
    }
}

proof fn lemma_union_depth(c: LayoutContext, g: GenericSubstitute, id: usize, f1: nat, f2: nat)
    requires
        f1 <= f2,
        !(union_layout(c, g, id, f1) is Diverges),
    ensures
        union_layout(c, g, id, f2) == union_layout(c, g, id, f1),
    decreases f1, c.unions@[id as int].variants@.len() + 1,
{
    if id < c.unions@.len() {
        law_layout_depth_independent(c, g, c.index_type, f1, f2);
        if layout_of(c, g, c.index_type, f1) is Sized {
            lemma_variants_depth(c, g, c.unions@[id as int].variants@, 0, 0, Alignment::Null, f1, f2);
        }
    }
}

proof fn lemma_align_depth(
    c: LayoutContext,
    g: GenericSubstitute,
    tys: Seq<usize>,
    i: int,
    align: Alignment,
    f1: nat,
    f2: nat,
)
    requires
        f1 <= f2,
        align_pass(c, g, tys, i, align, f1) != Err::<Alignment, Layout>(Layout::Diverges),
    ensures
        align_pass(c, g, tys, i, align, f2) == align_pass(c, g, tys, i, align, f1),
    decreases f1, tys.len() - i,
{
    if 0 <= i < tys.len() {
        law_layout_depth_independent(c, g, tys[i], f1, f2);
        if let Layout::Sized(s) = layout_of(c, g, tys[i], f1) {
            if alignment_bits(align) < alignment_bits(s.alignment) {
                if s.alignment != Alignment::Bit64 {
                    lemma_align_depth(c, g, tys, i + 1, s.alignment, f1, f2);
                }
            } else {
                lemma_align_depth(c, g, tys, i + 1, align, f1, f2);
            }
        }
    }
}

proof fn lemma_offset_depth(
    c: LayoutContext,
    g: GenericSubstitute,
    tys: Seq<usize>,
    i: int,
    offset: int,
    packed: bool,
    f1: nat,
    f2: nat,
)
    requires
        f1 <= f2,
        offset_pass(c, g, tys, i, offset, packed, f1) != Err::<int, Layout>(Layout::Diverges),
    ensures
        offset_pass(c, g, tys, i, offset, packed, f2) == offset_pass(c, g, tys, i, offset, packed, f1),
    decreases f1, tys.len() - i,
{
    if 0 <= i < tys.len() {
        law_layout_depth_independent(c, g, tys[i], f1, f2);
        if let Layout::Sized(s) = layout_of(c, g, tys[i], f1) {
            let padded = if packed {
                offset
            } else {
                offset + padding_for(s.alignment, offset)
            };
            lemma_offset_depth(c, g, tys, i + 1, padded + s.bits, packed, f1, f2);
        }
    }
}

proof fn lemma_variants_depth(
    c: LayoutContext,
    g: GenericSubstitute,
    tys: Seq<usize>,
    i: int,
    max_bits: int,
    max_align: Alignment,
    f1: nat,
    f2: nat,
)
    requires
        f1 <= f2,
        variants_pass(c, g, tys, i, max_bits, max_align, f1) != Err::<(int, Alignment), Layout>(Layout::Diverges),
    ensures
        variants_pass(c, g, tys, i, max_bits, max_align, f2) == variants_pass(c, g, tys, i, max_bits, max_align, f1),
    decreases f1, tys.len() - i,
{
    if 0 <= i < tys.len() {
        law_layout_depth_independent(c, g, tys[i], f1, f2);
        if let Layout::Sized(s) = layout_of(c, g, tys[i], f1) {
            let nb = if s.bits > max_bits {
                s.bits as int
            } else {
                max_bits
            };
            let na = if alignment_bits(s.alignment) > alignment_bits(max_align) {
                s.alignment
            } else {
                max_align
            };
            lemma_variants_depth(c, g, tys, i + 1, nb, na, f1, f2);
        }
    }
}

/// The passes over fields stop only on a field without a size.
pub proof fn lemma_passes_fail_unsized(
    c: LayoutContext,
    g: GenericSubstitute,
    tys: Seq<usize>,
    i: int,
    align: Alignment,
    offset: int,
    packed: bool,
    max_bits: int,
    fuel: nat,
)
    ensures
        align_pass(c, g, tys, i, align, fuel) matches Err(l) ==> !(l is Sized),
        offset_pass(c, g, tys, i, offset, packed, fuel) matches Err(l) ==> !(l is Sized),
        variants_pass(c, g, tys, i, max_bits, align, fuel) matches Err(l) ==> !(l is Sized),
    decreases tys.len() - i,
{
    if 0 <= i < tys.len() {
        if let Layout::Sized(s) = layout_of(c, g, tys[i], fuel) {
            let padded = if packed {
                offset
            } else {
                offset + padding_for(s.alignment, offset)
            };
            lemma_passes_fail_unsized(c, g, tys, i + 1, s.alignment, padded + s.bits, packed, max_bits, fuel);
            lemma_passes_fail_unsized(c, g, tys, i + 1, align, padded + s.bits, packed, max_bits, fuel);
            let nb = if s.bits > max_bits {
                s.bits as int
            } else {
                max_bits
            };
            let na = if alignment_bits(s.alignment) > alignment_bits(align) {
                s.alignment
            } else {
                align
            };
            lemma_passes_fail_unsized(c, g, tys, i + 1, na, padded + s.bits, packed, nb, fuel);
        }
    }
}

/// Laying fields out never moves the offset back.
pub proof fn lemma_offset_pass_grows(
    c: LayoutContext,
    g: GenericSubstitute,
    tys: Seq<usize>,
    i: int,
    offset: int,
    packed: bool,
    fuel: nat,
)
    requires
        0 <= offset,
    ensures
        offset_pass(c, g, tys, i, offset, packed, fuel) matches Ok(o) ==> offset <= o <= u32::MAX || (o == offset
            && (i < 0 || i >= tys.len())),
    decreases tys.len() - i,
{
    if 0 <= i < tys.len() {
        if let Layout::Sized(s) = layout_of(c, g, tys[i], fuel) {
            if packed || alignment_bits(s.alignment) != 0 {
                let padded = if packed {
                    offset
                } else {
                    offset + padding_for(s.alignment, offset)
                };
                if !packed {
                    lemma_padding_aligns(offset, alignment_bits(s.alignment) as int);
                }
                if padded + s.bits <= u32::MAX {
                    lemma_offset_pass_grows(c, g, tys, i + 1, padded + s.bits, packed, fuel);
                }
            }
        }
    }
}

/// A struct that is not packed has a nonzero alignment and a size that is
/// a multiple of it, and is at least as large as its fields laid end to end.
pub proof fn law_struct_size_is_aligned(c: LayoutContext, g: GenericSubstitute, id: usize, fuel: nat)
    requires
        id < c.structs@.len(),
        !c.structs@[id as int].packed,
    ensures
        struct_layout(c, g, id, fuel) matches Layout::Sized(s) ==> alignment_bits(s.alignment) > 0
            && s.bits as int % alignment_bits(s.alignment) as int == 0,
{
    let st = c.structs@[id as int];
    lemma_passes_fail_unsized(c, g, st.fields@, 0, Alignment::Null, 0, st.packed, 0, fuel);
    if let Ok(align) = align_pass(c, g, st.fields@, 0, Alignment::Null, fuel) {
        if let Ok(size) = offset_pass(c, g, st.fields@, 0, 0, st.packed, fuel) {
            lemma_offset_pass_grows(c, g, st.fields@, 0, 0, st.packed, fuel);
            let a = alignment_bits(align) as int;
            if a != 0 && size + a - 1 <= u32::MAX {
                lemma_round_up(size, a);
                let r = round_up(size, a);
                assert(r as u32 as int == r);
                assert(struct_layout(c, g, id, fuel) == Layout::Sized(Sizeof { bits: r as u32, alignment: align }));
            }
        }
    }
}

/// The alignment scan ends on the largest alignment among the fields it
/// looked at and the one it started from, which it either keeps or takes
/// from one of those fields.
pub proof fn lemma_align_pass_largest(
    c: LayoutContext,
    g: GenericSubstitute,
    tys: Seq<usize>,
    i: int,
    align: Alignment,
    fuel: nat,
)
    requires
        0 <= i,
        align_pass(c, g, tys, i, align, fuel) is Ok,
    ensures
        ({
            let r = align_pass(c, g, tys, i, align, fuel)->Ok_0;
            &&& alignment_bits(r) >= alignment_bits(align)
            &&& forall|j: int|
                i <= j < tys.len() ==> (#[trigger] layout_of(c, g, tys[j], fuel) matches Layout::Sized(f)
                    ==> alignment_bits(r) >= alignment_bits(f.alignment))
            &&& r == align || exists|j: int|
                i <= j < tys.len() && (#[trigger] layout_of(c, g, tys[j], fuel) matches Layout::Sized(f)
                    && f.alignment == r)
        }),
    decreases tys.len() - i,
{
    if i < tys.len() {
        if let Layout::Sized(s) = layout_of(c, g, tys[i], fuel) {
            let r = align_pass(c, g, tys, i, align, fuel)->Ok_0;
            if alignment_bits(align) < alignment_bits(s.alignment) {
                if s.alignment == Alignment::Bit64 {
                    assert forall|j: int| i <= j < tys.len() implies (#[trigger] layout_of(c, g, tys[j], fuel) matches Layout::Sized(f)
                        ==> alignment_bits(r) >= alignment_bits(f.alignment)) by {
                        if let Layout::Sized(f) = layout_of(c, g, tys[j], fuel) {
                            assert(alignment_bits(f.alignment) <= 64);
                        }
                    }
                    assert(layout_of(c, g, tys[i], fuel) matches Layout::Sized(f) && f.alignment == r);
                } else {
                    lemma_align_pass_largest(c, g, tys, i + 1, s.alignment, fuel);
                    assert(layout_of(c, g, tys[i], fuel) matches Layout::Sized(f) && f.alignment == s.alignment);
                }
            } else {
                lemma_align_pass_largest(c, g, tys, i + 1, align, fuel);
            }
        }
    }
}

/// Laying fields out succeeds only when every field has a size.
pub proof fn lemma_offset_pass_all_sized(
    c: LayoutContext,
    g: GenericSubstitute,
    tys: Seq<usize>,
    i: int,
    offset: int,
    packed: bool,
    fuel: nat,
)
    requires
        0 <= i,
        offset_pass(c, g, tys, i, offset, packed, fuel) is Ok,
    ensures
        forall|j: int| i <= j < tys.len() ==> #[trigger] layout_of(c, g, tys[j], fuel) is Sized,
    decreases tys.len() - i,
{
    if i < tys.len() {
        if let Layout::Sized(s) = layout_of(c, g, tys[i], fuel) {
            let padded = if packed {
                offset
            } else {
                offset + padding_for(s.alignment, offset)
            };
            lemma_offset_pass_all_sized(c, g, tys, i + 1, padded + s.bits, packed, fuel);
        }
    }
}

/// A struct is aligned to the largest alignment of its fields: every field
/// has a size, the struct's alignment is at least each field's, and it is
/// one of them (a struct without fields has no alignment).
pub proof fn law_struct_alignment_is_the_largest_field_alignment(
    c: LayoutContext,
    g: GenericSubstitute,
    id: usize,
    fuel: nat,
)
    requires
        id < c.structs@.len(),
    ensures
        struct_layout(c, g, id, fuel) matches Layout::Sized(s) ==> {
            let fields = c.structs@[id as int].fields@;
            &&& forall|j: int|
                0 <= j < fields.len() ==> (#[trigger] layout_of(c, g, fields[j], fuel) matches Layout::Sized(f)
                    && alignment_bits(s.alignment) >= alignment_bits(f.alignment))
            &&& fields.len() > 0 ==> exists|j: int|
                0 <= j < fields.len() && (#[trigger] layout_of(c, g, fields[j], fuel) matches Layout::Sized(f)
                    && f.alignment == s.alignment)
            &&& fields.len() == 0 ==> s.alignment == Alignment::Null
        },
{
    let st = c.structs@[id as int];
    let fields = st.fields@;
    if let Layout::Sized(s) = struct_layout(c, g, id, fuel) {
        lemma_passes_fail_unsized(c, g, fields, 0, Alignment::Null, 0, st.packed, 0, fuel);
        let align = align_pass(c, g, fields, 0, Alignment::Null, fuel)->Ok_0;
        lemma_align_pass_largest(c, g, fields, 0, Alignment::Null, fuel);
        lemma_offset_pass_all_sized(c, g, fields, 0, 0, st.packed, fuel);
        assert(s.alignment == align);
        if fields.len() > 0 && align == Alignment::Null {
            assert(layout_of(c, g, fields[0], fuel) is Sized);
            assert(layout_of(c, g, fields[0], fuel) matches Layout::Sized(f) && f.alignment == align);
        }
    }
}

/// A union has a nonzero alignment, at least that of its tag, and a size
/// that is a multiple of it and leaves room for the tag and the largest
/// variant.
pub proof fn law_union_size_is_aligned(tag: Sizeof, max_bits: int, max_align: Alignment)
    requires
        0 <= max_bits,
    ensures
        union_finish(tag, max_bits, max_align) matches Layout::Sized(s) ==> {
            &&& alignment_bits(s.alignment) > 0
            &&& alignment_bits(s.alignment) >= alignment_bits(tag.alignment)
            &&& alignment_bits(s.alignment) >= alignment_bits(max_align)
            &&& s.bits as int % alignment_bits(s.alignment) as int == 0
            &&& s.bits >= tag.bits + max_bits
        },
{
    let cell = union_cell_bits(max_align);
    let total_align = if alignment_bits(tag.alignment) > alignment_bits(max_align) {
        tag.alignment
    } else {
        max_align
    };
    let ta = alignment_bits(total_align) as int;
    if !(max_bits != 0 && max_bits + cell - 1 > u32::MAX) && ta != 0 {
        let count = if max_bits == 0 {
            0
        } else {
            (max_bits + cell - 1) / cell
        };
        if max_bits != 0 {
            lemma_round_up(max_bits, cell);
            assert(count * cell == round_up(max_bits, cell));
        }
        assert(count * cell >= max_bits);
        lemma_padding_aligns(tag.bits as int, ta);
        let unaligned = tag.bits + padding_for(total_align, tag.bits as int) + count * cell;
        if unaligned + ta - 1 <= u32::MAX {
            lemma_round_up(unaligned, ta);
        }
    }
}

impl LayoutContext {
    /// Whether computing the layout of `ty` ends with an answer.
    pub open spec fn has_layout(&self, g: GenericSubstitute, ty: usize) -> bool {
        exists|f: nat| !(#[trigger] layout_of(*self, g, ty, f) is Diverges)
    }

    /// The layout of `ty`, where computing it ends with an answer.
    pub open spec fn spec_layout(&self, g: GenericSubstitute, ty: usize) -> Layout {
        layout_of(*self, g, ty, choose|f: nat| !(#[trigger] layout_of(*self, g, ty, f) is Diverges))
    }
}

impl LayoutContext {
    /// The size in bits and the alignment of `ty`, with the generic
    /// parameters bound by `generics`.
    pub fn sizeof_bit(&self, ty: usize, generics: &GenericSubstitute) -> (res: Result<Sizeof, LayoutError>)
        requires
            self.has_layout(*generics, ty),
        ensures
            as_layout(res) == self.spec_layout(*generics, ty),
    {
        let ghost fuel = choose|f: nat| !(#[trigger] layout_of(*self, *generics, ty, f) is Diverges);
        self.layout_with_fuel(ty, generics, Ghost(fuel))
    }

    /// The size of `ty` in whole bytes.
    pub fn sizeof(&self, ty: usize, generics: &GenericSubstitute) -> (res: Result<u32, LayoutError>)
        requires
            self.has_layout(*generics, ty),
        ensures
            match self.spec_layout(*generics, ty) {
                Layout::Sized(s) => res == Ok::<u32, LayoutError>(s.bits / 8),
                Layout::Unsized(e) => res == Err::<u32, LayoutError>(e),
                Layout::Diverges => false,
            },
    {
        match self.sizeof_bit(ty, generics) {
            Ok(s) => Ok(s.bits / 8),
            Err(e) => Err(e),
        }
    }

    fn layout_with_fuel(&self, ty: usize, generics: &GenericSubstitute, Ghost(fuel): Ghost<nat>) -> (res: Result<
        Sizeof,
        LayoutError,
    >)
        requires
            !(layout_of(*self, *generics, ty, fuel) is Diverges),
        ensures
            as_layout(res) == layout_of(*self, *generics, ty, fuel),
        decreases fuel, 0int,
    {
        if ty >= self.types.len() {
            return Err(LayoutError::TypeNotFound { id: ty });
        }
        let entry = self.types[ty];
        let ghost f = (fuel - 1) as nat;
        let ptr = self.ptr_bits as u32;
        let ptr_align = match Alignment::from_bits(ptr) {
            Some(a) => a,
            None => {
                proof {
                    assert(false);
                }
                return Err(LayoutError::NoSize { id: ty });
            },
        };
        proof {
            assert(spec_from_bits(self.ptr_bits as int) == Some(ptr_align));
        }
        match entry.kind {
            ThirTypeKind::Error | ThirTypeKind::Type | ThirTypeKind::Never => Err(LayoutError::NoSize { id: ty }),
            ThirTypeKind::NoneType => Ok(Sizeof { bits: 0, alignment: Alignment::Null }),
            ThirTypeKind::Primitive { bits } => {
                let size = bits as u32;
                match Alignment::from_bits(size) {
                    Some(alignment) => {
                        proof {
                            assert(spec_from_bits(bits as int) == Some(alignment));
                        }
                        Ok(Sizeof { bits: size, alignment })
                    },
                    None => {
                        proof {
                            assert(false);
                        }
                        Err(LayoutError::NoSize { id: ty })
                    },
                }
            },
            ThirTypeKind::Array { kind, element } => {
                let size: u32 = match kind {
                    ArrayKind::StackArray(num) => {
                        let count = num as u32;
                        let element_layout = match self.layout_with_fuel(element, generics, Ghost(f)) {
                            Ok(e) => e,
                            Err(e) => return Err(e),
                        };
                        let total: u64 = count as u64 * element_layout.bits as u64;
                        if total > u32::MAX as u64 {
                            proof {
                                assert(false);
                            }
                            return Err(LayoutError::NoSize { id: ty });
                        }
                        total as u32
                    },
                    _ => self.int_bits as u32 + ptr,
                };
                Ok(Sizeof { bits: size, alignment: ptr_align })
            },
            ThirTypeKind::Ref(_) | ThirTypeKind::Pointer(_) => Ok(Sizeof { bits: ptr, alignment: ptr_align }),
            ThirTypeKind::Optional(_) | ThirTypeKind::Enum(_) => {
                proof {
                    assert(false);
                }
                Err(LayoutError::NoSize { id: ty })
            },
            ThirTypeKind::Generic(id) => match generics.resolve(id) {
                Some(t) => self.layout_with_fuel(t, generics, Ghost(f)),
                None => Err(LayoutError::GenericNotFound { id }),
            },
            ThirTypeKind::Struct(id) => self.sizeof_struct(id, generics, Ghost(f)),
            ThirTypeKind::Union(id) => self.sizeof_union(id, generics, Ghost(f)),
            ThirTypeKind::Trait(id) => Err(LayoutError::TraitHasNoSize { id }),
        }
    }

    fn sizeof_struct(&self, struct_id: usize, generics: &GenericSubstitute, Ghost(fuel): Ghost<nat>) -> (res: Result<
        Sizeof,
        LayoutError,
    >)
        requires
            !(struct_layout(*self, *generics, struct_id, fuel) is Diverges),
        ensures
            as_layout(res) == struct_layout(*self, *generics, struct_id, fuel),
        decreases fuel, 1int,
    {
        if struct_id >= self.structs.len() {
            return Err(LayoutError::StructNotFound { id: struct_id });
        }
        let struct_type = &self.structs[struct_id];
        let is_packed = struct_type.packed;
        let ghost tys = struct_type.fields@;
        let ghost c = *self;
        let ghost g = *generics;

        let mut alignment = Alignment::Null;
        let mut i: usize = 0;
        let mut reached_max = false;
        while i < struct_type.fields.len() && !reached_max
            invariant
                c == *self,
                g == *generics,
                tys == struct_type.fields@,
                *struct_type == self.structs@[struct_id as int],
                struct_id < self.structs@.len(),
                i <= tys.len(),
                !(struct_layout(c, g, struct_id, fuel) is Diverges),
                reached_max ==> align_pass(c, g, tys, 0, Alignment::Null, fuel) == Ok::<Alignment, Layout>(alignment),
                !reached_max ==> align_pass(c, g, tys, 0, Alignment::Null, fuel) == align_pass(
                    c,
                    g,
                    tys,
                    i as int,
                    alignment,
                    fuel,
                ),
            decreases tys.len() - i, if reached_max { 0int } else { 1int },
        {
            let field_ty = struct_type.fields[i];
            let inner = match self.layout_with_fuel(field_ty, generics, Ghost(fuel)) {
                Ok(l) => l,
                Err(e) => return Err(e),
            };
            if alignment.as_u32() < inner.alignment.as_u32() {
                alignment = inner.alignment;
                if inner.alignment.as_u32() == Alignment::max().as_u32() {
                    reached_max = true;
                }
            }
            if !reached_max {
                i = i + 1;
            }
        }
        proof {
            assert(align_pass(c, g, tys, 0, Alignment::Null, fuel) == Ok::<Alignment, Layout>(alignment));
        }

        let mut offset: u64 = 0;
        let mut j: usize = 0;
        while j < struct_type.fields.len()
            invariant
                c == *self,
                g == *generics,
                tys == struct_type.fields@,
                *struct_type == self.structs@[struct_id as int],
                struct_id < self.structs@.len(),
                is_packed == struct_type.packed,
                j <= tys.len(),
                offset <= u32::MAX,
                !(struct_layout(c, g, struct_id, fuel) is Diverges),
                align_pass(c, g, tys, 0, Alignment::Null, fuel) == Ok::<Alignment, Layout>(alignment),
                offset_pass(c, g, tys, 0, 0, is_packed, fuel) == offset_pass(
                    c,
                    g,
                    tys,
                    j as int,
                    offset as int,
                    is_packed,
                    fuel,
                ),
            decreases tys.len() - j,
        {
            let field_ty = struct_type.fields[j];
            let field = match self.layout_with_fuel(field_ty, generics, Ghost(fuel)) {
                Ok(l) => l,
                Err(e) => return Err(e),
            };
            if !is_packed {
                let padding = field.alignment.get_padding(offset as u32);
                offset = offset + padding as u64;
            }
            offset = offset + field.bits as u64;
            j = j + 1;
        }

        let mut size = offset;
        if !is_packed {
            let align = alignment.as_u32() as u64;
            proof {
                lemma_round_up(offset as int, align as int);
            }
            size = (size + align - 1) / align * align;
        }
        Ok(Sizeof { bits: size as u32, alignment })
    }

    fn sizeof_union(&self, union_id: usize, generics: &GenericSubstitute, Ghost(fuel): Ghost<nat>) -> (res: Result<
        Sizeof,
        LayoutError,
    >)
        requires
            !(union_layout(*self, *generics, union_id, fuel) is Diverges),
        ensures
            as_layout(res) == union_layout(*self, *generics, union_id, fuel),
        decreases fuel, 1int,
    {
        if union_id >= self.unions.len() {
            return Err(LayoutError::UnionNotFound { id: union_id });
        }
        let union_info = &self.unions[union_id];
        let ghost c = *self;
        let ghost g = *generics;
        let ghost tys = union_info.variants@;

        let tag = match self.layout_with_fuel(self.index_type, generics, Ghost(fuel)) {
            Ok(t) => t,
            Err(e) => return Err(e),
        };
        let mut max_bits: u32 = 0;
        let mut max_align = Alignment::Null;
        let mut i: usize = 0;
        while i < union_info.variants.len()
            invariant
                c == *self,
                g == *generics,
                tys == union_info.variants@,
                *union_info == self.unions@[union_id as int],
                union_id < self.unions@.len(),
                i <= tys.len(),
                layout_of(c, g, c.index_type, fuel) == Layout::Sized(tag),
                !(union_layout(c, g, union_id, fuel) is Diverges),
                variants_pass(c, g, tys, 0, 0, Alignment::Null, fuel) == variants_pass(
                    c,
                    g,
                    tys,
                    i as int,
                    max_bits as int,
                    max_align,
                    fuel,
                ),
            decreases tys.len() - i,
        {
            let variant_ty = union_info.variants[i];
            let field = match self.layout_with_fuel(variant_ty, generics, Ghost(fuel)) {
                Ok(l) => l,
                Err(e) => return Err(e),
            };
            if field.bits > max_bits {
                max_bits = field.bits;
            }
            if field.alignment.as_u32() > max_align.as_u32() {
                max_align = field.alignment;
            }
            i = i + 1;
        }
        proof {
            assert(variants_pass(c, g, tys, 0, 0, Alignment::Null, fuel) == Ok::<(int, Alignment), Layout>(
                (max_bits as int, max_align),
            ));
        }

        let elem_bits: u64 = if max_align.as_u32() == 0 {
            8
        } else {
            max_align.as_u32() as u64
        };
        let array_count: u64 = if max_bits == 0 {
            0
        } else {
            (max_bits as u64 + elem_bits - 1) / elem_bits
        };
        proof {
            if max_bits != 0 {
                lemma_round_up(max_bits as int, elem_bits as int);
            }
        }
        let array_bits: u64 = array_count * elem_bits;
        let total_align = if tag.alignment.as_u32() > max_align.as_u32() {
            tag.alignment
        } else {
            max_align
        };
        let padding = total_align.get_padding(tag.bits);
        let unaligned_bits: u64 = tag.bits as u64 + padding as u64 + array_bits;
        let ta = total_align.as_u32() as u64;
        proof {
            lemma_round_up(unaligned_bits as int, ta as int);
        }
        let total = (unaligned_bits + ta - 1) / ta * ta;
        Ok(Sizeof { bits: total as u32, alignment: total_align })
    }
}

} // verus!
