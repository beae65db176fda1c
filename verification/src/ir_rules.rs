//! The choices the IR backend makes before it emits an instruction: which
//! comparison predicate an operator becomes, and which conversion a
//! primitive cast needs.

use vstd::prelude::*;

verus! {

/// A comparison operator of the source language.
#[derive(Debug, Clone, Copy, PartialEq, Eq, Structural)]
pub enum IrCompare {
    Lt,
    Gt,
    Le,
    Ge,
    Eq,
    NotEq,
}

/// Integer comparison predicates of the IR (signed and unsigned).
#[derive(Debug, Clone, Copy, PartialEq, Eq, Structural)]
pub enum IntPredicate {
    EQ,
    NE,
    UGT,
    UGE,
    ULT,
    ULE,
    SGT,
    SGE,
    SLT,
    SLE,
}

/// Ordered floating-point comparison predicates of the IR (false on NaN).
#[derive(Debug, Clone, Copy, PartialEq, Eq, Structural)]
pub enum FloatPredicate {
    OEQ,
    OGT,
    OGE,
    OLT,
    OLE,
    ONE,
}

impl IrCompare {
    /// Whether the operator orders its operands (`<`, `>`, `<=`, `>=`).
    pub fn is_order_kind(&self) -> (res: bool)
        ensures
            res <==> (*self is Lt || *self is Gt || *self is Le || *self is Ge),
    {
        match self {
            IrCompare::Lt | IrCompare::Gt | IrCompare::Le | IrCompare::Ge => true,
            _ => false,
        }
    }

    pub fn to_signed_int_cmp(&self) -> (res: IntPredicate)
        ensures
            res == match *self {
                IrCompare::Lt => IntPredicate::SLT,
                IrCompare::Gt => IntPredicate::SGT,
                IrCompare::Le => IntPredicate::SLE,
                IrCompare::Ge => IntPredicate::SGE,
                IrCompare::Eq => IntPredicate::EQ,
                IrCompare::NotEq => IntPredicate::NE,
            },
    {
        match self {
            IrCompare::Lt => IntPredicate::SLT,
            IrCompare::Gt => IntPredicate::SGT,
            IrCompare::Le => IntPredicate::SLE,
            IrCompare::Ge => IntPredicate::SGE,
            IrCompare::Eq => IntPredicate::EQ,
            IrCompare::NotEq => IntPredicate::NE,
        }
    }

    pub fn to_unsigned_int_cmp(&self) -> (res: IntPredicate)
        ensures
            res == match *self {
                IrCompare::Lt => IntPredicate::ULT,
                IrCompare::Gt => IntPredicate::UGT,
                IrCompare::Le => IntPredicate::ULE,
                IrCompare::Ge => IntPredicate::UGE,
                IrCompare::Eq => IntPredicate::EQ,
                IrCompare::NotEq => IntPredicate::NE,
            },
    {
        match self {
            IrCompare::Lt => IntPredicate::ULT,
            IrCompare::Gt => IntPredicate::UGT,
            IrCompare::Le => IntPredicate::ULE,
            IrCompare::Ge => IntPredicate::UGE,
            IrCompare::Eq => IntPredicate::EQ,
            IrCompare::NotEq => IntPredicate::NE,
        }
    }

    pub fn to_float_cmp_no_nan(&self) -> (res: FloatPredicate)
        ensures
            res == match *self {
                IrCompare::Lt => FloatPredicate::OLT,
                IrCompare::Gt => FloatPredicate::OGT,
                IrCompare::Le => FloatPredicate::OLE,
                IrCompare::Ge => FloatPredicate::OGE,
                IrCompare::Eq => FloatPredicate::OEQ,
                IrCompare::NotEq => FloatPredicate::ONE,
            },
    {
        match self {
            IrCompare::Lt => FloatPredicate::OLT,
            IrCompare::Gt => FloatPredicate::OGT,
            IrCompare::Le => FloatPredicate::OLE,
            IrCompare::Ge => FloatPredicate::OGE,
            IrCompare::Eq => FloatPredicate::OEQ,
            IrCompare::NotEq => FloatPredicate::ONE,
        }
    }
}

/// The kinds of the two primitives of a cast, as far as the conversion
/// depends on them.
#[derive(Debug, Clone, Copy, PartialEq, Eq, Structural)]
pub struct PrimCastInfo {
    pub source_size: u8,
    pub cast_size: u8,
    pub source_is_float: bool,
    pub cast_is_float: bool,
    /// Whether a value of the source type can be negative.
    pub source_signed: bool,
    /// Whether a value of the target type can be negative.
    pub cast_signed: bool,
}

/// The conversion instruction a primitive cast needs.
#[derive(Debug, Clone, Copy, PartialEq, Eq, Structural)]
pub enum CastOp {
    /// Same width and same kind: the value is used as it is.
    Keep,
    /// Same width, integer to float or back: the bits are reinterpreted.
    Bitcast,
    FloatExtend,
    FloatTruncate,
    FloatToSigned,
    FloatToUnsigned,
    SignedToFloat,
    UnsignedToFloat,
    SignExtend,
    ZeroExtend,
    Truncate,
}

/// An integer-to-float conversion of a different width reads the source
/// as signed exactly when the source type can be negative, whatever the
/// two widths.
pub proof fn law_int_to_float_reads_the_source_sign(info: PrimCastInfo)
    requires
        !info.source_is_float,
        info.cast_is_float,
        info.source_size != info.cast_size,
    ensures
        spec_cast_op(info) is SignedToFloat || spec_cast_op(info) is UnsignedToFloat,
        spec_cast_op(info) is SignedToFloat <==> info.source_signed,
{
}

/// A float-to-integer conversion of a different width produces a signed
/// integer exactly when the target type can be negative.
pub proof fn law_float_to_int_writes_the_target_sign(info: PrimCastInfo)
    requires
        info.source_is_float,
        !info.cast_is_float,
        info.source_size != info.cast_size,
    ensures
        spec_cast_op(info) is FloatToSigned || spec_cast_op(info) is FloatToUnsigned,
        spec_cast_op(info) is FloatToSigned <==> info.cast_signed,
{
}

/// Between integers of different widths, a widening extends (with the
/// sign exactly when the source can be negative) and a narrowing
/// truncates; between floats, a widening extends and a narrowing
/// truncates.
pub proof fn law_resizing_follows_width_and_sign(info: PrimCastInfo)
    requires
        info.source_is_float == info.cast_is_float,
        info.source_size != info.cast_size,
    ensures
        !info.source_is_float && info.source_size < info.cast_size ==> (spec_cast_op(info) is SignExtend
            || spec_cast_op(info) is ZeroExtend) && (spec_cast_op(info) is SignExtend <==> info.source_signed),
        !info.source_is_float && info.source_size > info.cast_size ==> spec_cast_op(info) is Truncate,
        info.source_is_float ==> (spec_cast_op(info) is FloatExtend <==> info.source_size < info.cast_size) && (
        spec_cast_op(info) is FloatExtend || spec_cast_op(info) is FloatTruncate),
{
}

/// A cast between types of the same width changes no bits: it keeps the
/// value when both sides are of the same kind and reinterprets the bits
/// otherwise.
pub proof fn law_same_width_keeps_the_bits(info: PrimCastInfo)
    requires
        info.source_size == info.cast_size,
    ensures
        spec_cast_op(info) is Keep <==> info.source_is_float == info.cast_is_float,
        spec_cast_op(info) is Keep || spec_cast_op(info) is Bitcast,
{
}


/// The conversion a cast needs: equal widths keep or reinterpret the bits,
/// float-to-float widens or narrows, a float on one side converts by the
/// signedness of the integer side, and an integer cast extends (by the
/// source's signedness) or truncates.
pub open spec fn spec_cast_op(info: PrimCastInfo) -> CastOp {
    let one_is_float = info.source_is_float != info.cast_is_float;
    if info.source_size == info.cast_size {
        if one_is_float {
            CastOp::Bitcast
        } else {
            CastOp::Keep
        }
    } else if info.source_is_float && info.cast_is_float {
        if info.source_size < info.cast_size {
            CastOp::FloatExtend
        } else {
            CastOp::FloatTruncate
        }
    } else if one_is_float {
        if info.source_is_float {
            if info.cast_signed {
                CastOp::FloatToSigned
            } else {
                CastOp::FloatToUnsigned
            }
        } else if info.source_signed {
            CastOp::SignedToFloat
        } else {
            CastOp::UnsignedToFloat
        }
    } else if info.source_size < info.cast_size {
        if info.source_signed {
            CastOp::SignExtend
        } else {
            CastOp::ZeroExtend
        }
    } else {
        CastOp::Truncate
    }
}

/// Chooses the conversion for a primitive cast.
pub fn cast_primitives(info: &PrimCastInfo) -> (res: CastOp)
    ensures
        res == spec_cast_op(*info),
{
    let one_is_float = info.source_is_float != info.cast_is_float;
    let both_are_float = info.source_is_float && info.cast_is_float;
    if info.source_size == info.cast_size {
        if one_is_float {
            CastOp::Bitcast
        } else {
            CastOp::Keep
        }
    } else if both_are_float {
        if info.source_size < info.cast_size {
            CastOp::FloatExtend
        } else {
            CastOp::FloatTruncate
        }
    } else if one_is_float {
        if info.source_is_float {
            if info.cast_signed {
                CastOp::FloatToSigned
            } else {
                CastOp::FloatToUnsigned
            }
        } else if info.source_signed {
            CastOp::SignedToFloat
        } else {
            CastOp::UnsignedToFloat
        }
    } else if info.source_size < info.cast_size {
        if info.source_signed {
            CastOp::SignExtend
        } else {
            CastOp::ZeroExtend
        }
    } else {
        CastOp::Truncate
    }
}

} // verus!
