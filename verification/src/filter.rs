//! The value of a filter expression in a session state. Values are 32-bit
//! signed integers: sums, differences and products wrap around, a quotient is
//! rounded toward zero, and a division by zero yields 0. Comparisons yield 1
//! or 0; `and` and `or` treat every value but 0 as true.

use crate::script::{FilterOperation, FilterView, LineFilter, Ops};
use crate::state::{State, StateView, count, visit_count};
use vstd::prelude::*;

verus! {

/// The 32-bit two's-complement number that `x` wraps around to.
pub open spec fn wrap(x: int) -> i32 {
    let m = x % 0x1_0000_0000;
    if m > i32::MAX {
        (m - 0x1_0000_0000) as i32
    } else {
        m as i32
    }
}

/// The quotient of `x` by `d`, rounded toward zero; `d` is not 0.
pub open spec fn quotient(x: int, d: int) -> int {
    if x >= 0 && d > 0 {
        x / d
    } else if x < 0 && d < 0 {
        (-x) / (-d)
    } else if x < 0 {
        -((-x) / d)
    } else {
        -(x / (-d))
    }
}

/// 1 for true, 0 for false.
pub open spec fn truth(b: bool) -> i32 {
    if b {
        1
    } else {
        0
    }
}

/// The value of the operator `op` on the values `a` and `b`.
pub open spec fn apply_op(op: Ops, a: i32, b: i32) -> i32 {
    match op {
        Ops::Add => wrap(a + b),
        Ops::Sub => wrap(a - b),
        Ops::Mul => wrap(a * b),
        Ops::Div => if b == 0 {
            0
        } else {
            wrap(quotient(a as int, b as int))
        },
        Ops::Gt => truth(a > b),
        Ops::Gte => truth(a >= b),
        Ops::Lt => truth(a < b),
        Ops::Lte => truth(a <= b),
        Ops::Eq => truth(a == b),
        Ops::Ne => truth(a != b),
        Ops::And => if a != 0 {
            b
        } else {
            0
        },
        Ops::Or => if a != 0 {
            a
        } else {
            b
        },
    }
}

/// A visit count as a value of the filter language.
pub open spec fn visits_value(n: u32) -> i32 {
    if n <= i32::MAX {
        n as i32
    } else {
        i32::MAX
    }
}

/// The value of the expression `filter` in the state `st`.
pub open spec fn eval(filter: FilterView, st: StateView) -> i32
    decreases filter,
{
    match filter {
        FilterView::Call(op, left, right) => apply_op(op, eval(*left, st), eval(*right, st)),
        FilterView::Int(value) => value,
        FilterView::Visits(label) => visits_value(visit_count(st.visits, label)),
        FilterView::Items(key) => count(st.inventory, key),
        FilterView::Variable(name) => count(st.values, name),
    }
}

/// The value of `op` on two values.
pub fn apply(op: Ops, a: i32, b: i32) -> (r: i32)
    ensures
        r == apply_op(op, a, b),
{
    match op {
        Ops::Add => a.wrapping_add(b),
        Ops::Sub => a.wrapping_sub(b),
        Ops::Mul => a.wrapping_mul(b),
        Ops::Div => match a.checked_div(b) {
            Some(q) => q,
            None => if b == 0 {
                0
            } else {
                i32::MIN
            },
        },
        Ops::Gt => if a > b {
            1
        } else {
            0
        },
        Ops::Gte => if a >= b {
            1
        } else {
            0
        },
        Ops::Lt => if a < b {
            1
        } else {
            0
        },
        Ops::Lte => if a <= b {
            1
        } else {
            0
        },
        Ops::Eq => if a == b {
            1
        } else {
            0
        },
        Ops::Ne => if a != b {
            1
        } else {
            0
        },
        Ops::And => if a != 0 {
            b
        } else {
            0
        },
        Ops::Or => if a != 0 {
            a
        } else {
            b
        },
    }
}

impl State {
    /// The value of the expression `op` in this state.
    pub fn eval_filter(&self, op: &FilterOperation) -> (r: i32)
        ensures
            r == eval(op@, self@),
        decreases op,
    {
        match op {
            FilterOperation::OperatorCall(call) => {
                let left = self.eval_filter(&call.left);
                match call.operator {
                    Ops::And => if left != 0 {
                        self.eval_filter(&call.right)
                    } else {
                        0
                    },
                    Ops::Or => if left != 0 {
                        left
                    } else {
                        self.eval_filter(&call.right)
                    },
                    operator => {
                        let right = self.eval_filter(&call.right);
                        apply(operator, left, right)
                    },
                }
            },
            FilterOperation::IntLiteral(lit) => *lit,
            FilterOperation::CountVisits(visit) => {
                let seen = self.count_visits(visit);
                if seen <= 0x7fff_ffff {
                    seen as i32
                } else {
                    i32::MAX
                }
            },
            FilterOperation::CountItems(item) => self.count_item(item),
            FilterOperation::ReadVariable(name) => self.read_value(name),
        }
    }

    /// Whether the filter lets its line through: its value is not 0.
    pub fn check_filter(&self, filter: &LineFilter) -> (r: bool)
        ensures
            r == (eval(filter.operation@, self@) != 0),
    {
        self.eval_filter(&filter.operation) != 0
    }
}

} // verus!
