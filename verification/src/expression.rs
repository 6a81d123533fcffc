//! The parser of filter expressions.

use crate::grammar::{chain, expr};
use crate::lexer::{int_value, parsed, peek, skip_ws, symbol, var_symbol};
use crate::script::{FilterOperation, FilterView, OperatorCall, Ops};
use vstd::prelude::*;

verus! {

/// The operator sign of the given level that stands at `pos`.
pub fn sign(input: &[char], pos: usize, level: u8) -> (r: Option<(Ops, usize)>)
    requires
        pos <= input@.len(),
    ensures
        parsed(r, pos, input@.len(), crate::grammar::sign(level as nat, input@, pos as int)),
{
    let len = input.len();
    if level == 1 {
        if peek(input, pos, '*') {
            Some((Ops::Mul, pos + 1))
        } else if peek(input, pos, '/') {
            Some((Ops::Div, pos + 1))
        } else {
            None
        }
    } else if level == 2 {
        if peek(input, pos, '+') {
            Some((Ops::Add, pos + 1))
        } else if peek(input, pos, '-') {
            Some((Ops::Sub, pos + 1))
        } else {
            None
        }
    } else if level == 3 {
        if peek(input, pos, '>') && peek(input, pos + 1, '=') {
            Some((Ops::Gte, pos + 2))
        } else if peek(input, pos, '<') && peek(input, pos + 1, '=') {
            Some((Ops::Lte, pos + 2))
        } else if peek(input, pos, '>') {
            Some((Ops::Gt, pos + 1))
        } else if peek(input, pos, '<') {
            Some((Ops::Lt, pos + 1))
        } else {
            None
        }
    } else if level == 4 {
        if peek(input, pos, '!') && peek(input, pos + 1, '=') {
            Some((Ops::Ne, pos + 2))
        } else if peek(input, pos, '=') && peek(input, pos + 1, '=') {
            Some((Ops::Eq, pos + 2))
        } else if peek(input, pos, '=') {
            Some((Ops::Eq, pos + 1))
        } else {
            None
        }
    } else if level == 5 {
        if peek(input, pos, 'a') && peek(input, pos + 1, 'n') && peek(input, pos + 2, 'd') {
            Some((Ops::And, pos + 3))
        } else {
            None
        }
    } else if level == 6 {
        if peek(input, pos, 'o') && peek(input, pos + 1, 'r') {
            Some((Ops::Or, pos + 2))
        } else {
            None
        }
    } else {
        None
    }
}

/// An operator of the given level, with the spaces before and after it.
pub fn operator(input: &[char], pos: usize, level: u8) -> (r: Option<(Ops, usize)>)
    requires
        pos <= input@.len(),
    ensures
        parsed(r, pos, input@.len(), crate::grammar::operator(level as nat, input@, pos as int)),
{
    let at = skip_ws(input, pos);
    match sign(input, at, level) {
        Some((op, next)) => Some((op, skip_ws(input, next))),
        None => None,
    }
}

/// What `chain` yields at `at`, counted from `base`.
pub open spec fn chain_from(s: Seq<char>, base: int, at: int, level: nat, so_far: FilterView) -> (
    FilterView,
    int,
) {
    let (whole, more) = chain(s, at, level, so_far);
    (whole, at - base + more)
}

/// Whether a visit count stands at `i`: a `#` and a symbol.
pub open spec fn visits_at(s: Seq<char>, i: int) -> bool {
    crate::grammar::at(s, i, '#') && crate::grammar::symbol(s, i + 1) is Some
}

/// Whether an item count stands at `i`: a `$` and a symbol.
pub open spec fn items_at(s: Seq<char>, i: int) -> bool {
    crate::grammar::at(s, i, '$') && crate::grammar::symbol(s, i + 1) is Some
}

/// An expression in parentheses.
pub fn sub_expr(input: &[char], pos: usize) -> (r: Option<(FilterOperation, usize)>)
    requires
        pos <= input@.len(),
    ensures
        crate::grammar::at(input@, pos as int, '(') ==> parsed(
            r,
            pos,
            input@.len(),
            expr(input@, pos as int, 0),
        ),
        !crate::grammar::at(input@, pos as int, '(') ==> r is None,
    decreases input@.len() - pos, 0int,
{
    if !peek(input, pos, '(') {
        return None;
    }
    match expr_level(input, pos + 1, 6) {
        Some((inner, next)) => if peek(input, next, ')') {
            Some((inner, next + 1))
        } else {
            None
        },
        None => None,
    }
}

/// An integer as an expression.
pub fn int_literal(input: &[char], pos: usize) -> (r: Option<(FilterOperation, usize)>)
    requires
        pos <= input@.len(),
    ensures
        match r {
            Some((value, next)) => {
                &&& pos <= next <= input@.len()
                &&& crate::grammar::int_literal(input@, pos as int) matches Some((number, n))
                &&& value@ == FilterView::Int(number)
                &&& n == next - pos
            },
            None => crate::grammar::int_literal(input@, pos as int) is None,
        },
{
    match int_value(input, pos) {
        Some((value, next)) => Some((FilterOperation::IntLiteral(value), next)),
        None => None,
    }
}

/// A `#` and the symbol of a scene: the number of visits to the scene.
pub fn count_visits(input: &[char], pos: usize) -> (r: Option<(FilterOperation, usize)>)
    requires
        pos <= input@.len(),
    ensures
        match r {
            Some((value, next)) => {
                &&& pos < next <= input@.len()
                &&& visits_at(input@, pos as int)
                &&& crate::grammar::symbol(input@, pos + 1) matches Some((text, n))
                &&& value@ == FilterView::Visits(text)
                &&& n + 1 == next - pos
            },
            None => !visits_at(input@, pos as int),
        },
{
    if !peek(input, pos, '#') {
        return None;
    }
    match symbol(input, pos + 1) {
        Some((text, next)) => Some((FilterOperation::CountVisits(text), next)),
        None => None,
    }
}

/// A `$` and the symbol of an item: the count of the item.
pub fn count_items(input: &[char], pos: usize) -> (r: Option<(FilterOperation, usize)>)
    requires
        pos <= input@.len(),
    ensures
        match r {
            Some((value, next)) => {
                &&& pos < next <= input@.len()
                &&& items_at(input@, pos as int)
                &&& crate::grammar::symbol(input@, pos + 1) matches Some((text, n))
                &&& value@ == FilterView::Items(text)
                &&& n + 1 == next - pos
            },
            None => !items_at(input@, pos as int),
        },
{
    if !peek(input, pos, '$') {
        return None;
    }
    match symbol(input, pos + 1) {
        Some((text, next)) => Some((FilterOperation::CountItems(text), next)),
        None => None,
    }
}

/// The name of a variable: the value of the variable.
pub fn read_variable(input: &[char], pos: usize) -> (r: Option<(FilterOperation, usize)>)
    requires
        pos <= input@.len(),
    ensures
        match r {
            Some((value, next)) => {
                &&& pos <= next <= input@.len()
                &&& crate::grammar::var_symbol(input@, pos as int) matches Some((text, n))
                &&& value@ == FilterView::Variable(text)
                &&& n == next - pos
            },
            None => crate::grammar::var_symbol(input@, pos as int) is None,
        },
{
    match var_symbol(input, pos) {
        Some((text, next)) => Some((FilterOperation::ReadVariable(text), next)),
        None => None,
    }
}

/// An atom: an expression in parentheses, an integer, the visit count of a
/// scene, the count of an item, or a variable.
pub fn expr_atom(input: &[char], pos: usize) -> (r: Option<(FilterOperation, usize)>)
    requires
        pos <= input@.len(),
    ensures
        parsed(r, pos, input@.len(), expr(input@, pos as int, 0)),
    decreases input@.len() - pos, 1int,
{
    if peek(input, pos, '(') {
        return sub_expr(input, pos);
    }
    if let Some(found) = int_literal(input, pos) {
        return Some(found);
    }
    if let Some(found) = count_visits(input, pos) {
        return Some(found);
    }
    if let Some(found) = count_items(input, pos) {
        return Some(found);
    }
    read_variable(input, pos)
}

/// An expression of the given level: operands of the level below, joined
/// from the left by the operators of this level.
pub fn expr_level(input: &[char], pos: usize, level: u8) -> (r: Option<(FilterOperation, usize)>)
    requires
        pos <= input@.len(),
        level <= 6,
    ensures
        parsed(r, pos, input@.len(), expr(input@, pos as int, level as nat)),
    decreases input@.len() - pos, level + 2,
{
    if level == 0 {
        return expr_atom(input, pos);
    }
    let (first, start) = match expr_level(input, pos, level - 1) {
        Some(found) => found,
        None => {
            return None;
        },
    };
    let ghost first_view = first@;
    let mut out = first;
    let mut at: usize = start;
    loop
        invariant
            pos <= start <= at <= input@.len(),
            1 <= level <= 6,
            expr(input@, pos as int, (level - 1) as nat) == Some(
                (first_view, (start - pos) as nat),
            ),
            chain_from(input@, start as int, start as int, level as nat, first_view) == chain_from(
                input@,
                start as int,
                at as int,
                level as nat,
                out@,
            ),
        decreases input@.len() - at,
    {
        let (op, after) = match operator(input, at, level) {
            Some(found) => found,
            None => {
                return Some((out, at));
            },
        };
        let (right, next) = match expr_level(input, after, level - 1) {
            Some(found) => found,
            None => {
                return Some((out, at));
            },
        };
        out = FilterOperation::OperatorCall(Box::new(OperatorCall { operator: op, left: out, right }));
        at = next;
    }
}

/// A filter expression.
pub fn filter_expr(input: &[char], pos: usize) -> (r: Option<(FilterOperation, usize)>)
    requires
        pos <= input@.len(),
    ensures
        parsed(r, pos, input@.len(), crate::grammar::filter_expr(input@, pos as int)),
{
    expr_level(input, pos, 6)
}

} // verus!
