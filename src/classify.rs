//! Recognising optional and repeated field types by their path, however the
//! path is qualified.

use vstd::prelude::*;
use crate::model::{GenericArg, Segment, TypeExpr, TypeShape};

verus! {

/// The identifier of the type's terminal path segment.
pub open spec fn last_ident(ty: TypeExpr) -> Option<Seq<char>> {
    match ty.shape {
        TypeShape::Path(segs) => if segs@.len() > 0 {
            Some(segs@.last().ident@)
        } else {
            None
        },
        TypeShape::Other => None,
    }
}

/// `Option`, `option::Option` or `std::option::Option`.
pub open spec fn is_option_path(segs: Seq<Segment>) -> bool {
    ||| segs.len() == 1 && segs[0].ident@ == "Option"@
    ||| segs.len() == 2 && segs[0].ident@ == "option"@ && segs[1].ident@ == "Option"@
    ||| segs.len() == 3 && segs[0].ident@ == "std"@ && segs[1].ident@ == "option"@
        && segs[2].ident@ == "Option"@
}

pub open spec fn is_optional(ty: TypeExpr) -> bool {
    match ty.shape {
        TypeShape::Path(segs) => is_option_path(segs@),
        TypeShape::Other => false,
    }
}

/// A repeated value: the terminal identifier is `Vec`, at any qualification.
pub open spec fn is_sequence(ty: TypeExpr) -> bool {
    last_ident(ty) == Some("Vec"@)
}

/// The type argument at position `idx` of the terminal path segment.
pub open spec fn arg_type(ty: TypeExpr, idx: int) -> Option<TypeExpr> {
    match ty.shape {
        TypeShape::Path(segs) => if segs@.len() > 0 && 0 <= idx < segs@.last().args@.len() {
            match segs@.last().args@[idx] {
                GenericArg::Type(t) => Some(t),
                GenericArg::Other => None,
            }
        } else {
            None
        },
        TypeShape::Other => None,
    }
}

fn ident_is(seg: &Segment, lit: &str) -> (r: bool)
    ensures
        r == (seg.ident@ == lit@),
{
    let other = String::from_str(lit);
    seg.ident == other
}

/// Whether the type is the standard optional type.
pub fn classify_is_optional(ty: &TypeExpr) -> (r: bool)
    ensures
        r == is_optional(*ty),
{
    match &ty.shape {
        TypeShape::Path(segs) => {
            let n = segs.len();
            if n == 1 {
                ident_is(&segs[0], "Option")
            } else if n == 2 {
                ident_is(&segs[0], "option") && ident_is(&segs[1], "Option")
            } else if n == 3 {
                ident_is(&segs[0], "std") && ident_is(&segs[1], "option") && ident_is(
                    &segs[2],
                    "Option",
                )
            } else {
                false
            }
        },
        TypeShape::Other => false,
    }
}

/// Whether the type is a repeated value.
pub fn classify_sequence(ty: &TypeExpr) -> (r: bool)
    ensures
        r == is_sequence(*ty),
{
    match &ty.shape {
        TypeShape::Path(segs) => {
            if segs.len() == 0 {
                return false;
            }
            let last = &segs[segs.len() - 1];
            ident_is(last, "Vec")
        },
        TypeShape::Other => false,
    }
}

/// The type argument at position `idx` of the terminal path segment, if there
/// is one.
pub fn inner_type(ty: &TypeExpr, idx: usize) -> (r: Option<&TypeExpr>)
    ensures
        match r {
            Some(t) => arg_type(*ty, idx as int) == Some(*t),
            None => arg_type(*ty, idx as int) is None,
        },
{
    match &ty.shape {
        TypeShape::Path(segs) => {
            if segs.len() == 0 {
                return None;
            }
            let last = &segs[segs.len() - 1];
            if idx >= last.args.len() {
                return None;
            }
            match &last.args[idx] {
                GenericArg::Type(t) => Some(t),
                GenericArg::Other => None,
            }
        },
        TypeShape::Other => None,
    }
}

/// The wrapped type of an optional type; `None` for any other type, and for an
/// optional type written without its argument.
pub fn classify_optional(ty: &TypeExpr) -> (r: Option<&TypeExpr>)
    ensures
        match r {
            Some(t) => is_optional(*ty) && arg_type(*ty, 0) == Some(*t),
            None => !is_optional(*ty) || arg_type(*ty, 0) is None,
        },
{
    if classify_is_optional(ty) {
        inner_type(ty, 0)
    } else {
        None
    }
}

} // verus!
