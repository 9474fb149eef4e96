//! Expressions without their wrappers.

use crate::ast::{expr_value, kind_value, Expr, ExprV, Kind, KindV};
use crate::ir::opt;
use crate::outside::share;
use std::rc::Rc;
use vstd::prelude::*;

verus! {

/// An expression without the brackets and type annotations round it.
pub open spec fn peeled(expr: Expr) -> Expr
    decreases expr,
{
    match expr.kind {
        Kind::Paren(inner) => peeled(*inner),
        Kind::Typed { expr: inner, .. } => peeled(*inner),
        _ => expr,
    }
}

/// An expression without the brackets and type annotations round it.
pub fn peel_wrapped_expression<'a>(expr: &'a Expr) -> (inner: &'a Expr)
    ensures
        *inner == peeled(*expr),
    decreases expr,
{
    match &expr.kind {
        Kind::Paren(inner) => peel_wrapped_expression(inner),
        Kind::Typed { expr: inner, .. } => peel_wrapped_expression(inner),
        _ => expr,
    }
}

/// An expression that can be assigned to.
pub open spec fn is_assignable(expr: Expr) -> bool {
    match expr.kind {
        Kind::Ident { .. } => true,
        Kind::Member { .. } => true,
        Kind::Index { .. } => true,
        Kind::PrivateMember { .. } => true,
        Kind::Typed { .. } => true,
        _ => false,
    }
}

/// Whether an expression can be assigned to.
pub fn assignable(expr: &Expr) -> (yes: bool)
    ensures
        yes == is_assignable(*expr),
{
    match &expr.kind {
        Kind::Ident { .. } => true,
        Kind::Member { .. } => true,
        Kind::Index { .. } => true,
        Kind::PrivateMember { .. } => true,
        Kind::Typed { .. } => true,
        _ => false,
    }
}

/// A name that an assignment may go to: one that is neither constant nor
/// imported.  Anything that is not a name counts as one.
pub open spec fn is_writable(expr: Expr) -> bool {
    match peeled(expr).kind {
        Kind::Ident { symbol: Some(symbol), .. } => !symbol.is_const && !symbol.is_import,
        _ => true,
    }
}

/// Whether a `ref` may be assigned to.
pub fn is_writable_ref_target(expr: &Expr) -> (yes: bool)
    ensures
        yes == is_writable(*expr),
{
    match &peel_wrapped_expression(expr).kind {
        Kind::Ident { symbol, .. } => match symbol {
            Some(symbol) => !symbol.is_const && !symbol.is_import,
            None => true,
        },
        _ => true,
    }
}

/// A function that stands in place.
pub open spec fn is_function_handler(expr: Expr) -> bool {
    peeled(expr).kind is Arrow || peeled(expr).kind is Function
}

/// Whether an event handler is a function that stands in place.
pub fn is_function_handler_expression(expr: &Expr) -> (yes: bool)
    ensures
        yes == is_function_handler(*expr),
{
    match &peel_wrapped_expression(expr).kind {
        Kind::Arrow { .. } => true,
        Kind::Function { .. } => true,
        _ => false,
    }
}

/// A name that is bound to something that does not change.
pub open spec fn is_resolvable(expr: Expr) -> bool {
    match peeled(expr).kind {
        Kind::Ident { symbol: Some(symbol), .. } => symbol.is_const || symbol.is_function
            || symbol.is_import,
        _ => false,
    }
}

/// Whether an event handler is a name that is bound to something that does not
/// change.
pub fn is_resolvable_event_handler(expr: &Expr) -> (yes: bool)
    ensures
        yes == is_resolvable(*expr),
{
    match &peel_wrapped_expression(expr).kind {
        Kind::Ident { symbol, .. } => match symbol {
            Some(symbol) => symbol.is_const || symbol.is_function || symbol.is_import,
            None => false,
        },
        _ => false,
    }
}

/// A call without arguments of something that is neither a call nor a member:
/// the callee can stand for the call where a function is wanted.
pub open spec fn plain_call(expr: Expr) -> Option<Expr> {
    match expr.kind {
        Kind::Call { callee, args, .. } => if args@.len() == 0 && !(callee.kind is Call)
            && !(callee.kind is Member) && !(callee.kind is Index) {
            Some(*callee)
        } else {
            None
        },
        _ => None,
    }
}

/// The callee of a call that it can stand for.
pub fn callee_of_plain_call(expr: &Expr) -> (callee: Option<Rc<Expr>>)
    ensures
        match callee {
            Some(callee) => plain_call(*expr) == Some(*callee),
            None => plain_call(*expr) is None,
        },
{
    match &expr.kind {
        Kind::Call { callee, args, .. } => {
            let stands = match &callee.kind {
                Kind::Call { .. } => false,
                Kind::Member { .. } => false,
                Kind::Index { .. } => false,
                _ => true,
            };
            if args.len() == 0 && stands {
                Some(share(callee))
            } else {
                None
            }
        },
        _ => None,
    }
}

/// An expression without the brackets and type annotations round it.
pub open spec fn peeled_v(expr: ExprV) -> ExprV
    decreases expr,
{
    match expr.kind {
        KindV::Paren(inner) => peeled_v(*inner),
        KindV::Typed { wrapper, expr: inner } => peeled_v(*inner),
        _ => expr,
    }
}

pub proof fn peeled_value(expr: &Expr)
    ensures
        peeled(*expr)@ == peeled_v(expr@),
    decreases expr,
{
    match expr.kind {
        Kind::Paren(ref inner) => {
            peeled_value(inner);
        },
        Kind::Typed { wrapper, expr: ref inner } => {
            peeled_value(inner);
        },
        _ => {},
    }
}

/// The text of a literal.
pub open spec fn literal_text_v(expr: ExprV) -> Option<Seq<char>> {
    match peeled_v(expr).kind {
        KindV::Str(text) => Some(text),
        KindV::Num(number) => Some(number.shown()),
        KindV::Template { quasis, exprs } => if exprs.len() == 0 && quasis.len() > 0 {
            Some(quasis[0].raw)
        } else {
            None
        },
        _ => None,
    }
}

/// The text of a literal.
pub fn literal_text_from_expr(expr: &Expr) -> (text: Option<String>)
    ensures
        opt(text) == literal_text_v(expr@),
{
    proof {
        peeled_value(expr);
        reveal_with_fuel(expr_value, 2);
        reveal_with_fuel(kind_value, 2);
    }
    match &peel_wrapped_expression(expr).kind {
        Kind::Str(text) => Some(text.clone()),
        Kind::Num(number) => Some(number.shown()),
        Kind::Template { quasis, exprs } => {
            if exprs.len() == 0 && quasis.len() > 0 {
                Some(quasis[0].raw.clone())
            } else {
                None
            }
        },
        _ => None,
    }
}

} // verus!
