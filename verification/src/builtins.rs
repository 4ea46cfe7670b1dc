//! The built-in function table: a fixed set of named stack operations.
//!
//! Each built-in is a tagged descriptor with a fixed arity, so that the
//! evaluator can check the stack before it asks its host to compute.
//! The arithmetic itself is the host's: the machine only pops the
//! operands and pushes the answer.

use vstd::prelude::*;

verus! {

/// A built-in that pops two operands and pushes one result. The second
/// operand popped (the deeper one) is the left-hand side.
#[derive(Clone, Copy, PartialEq, Eq, Debug)]
pub enum Op2 {
    /// `+`: addition.
    Add,
    /// `-`: subtraction.
    Sub,
    /// `*`: multiplication.
    Mul,
    /// `/`: division of the deeper operand by the top one.
    Div,
    /// `^`: the deeper operand raised to the top one.
    Pow,
    /// `=`: equality, answered as one or zero.
    Eq,
    /// `<`: strict less-than, answered as one or zero.
    Lt,
    /// `>`: strict greater-than, answered as one or zero.
    Gt,
    /// `<=`: less-or-equal, answered as one or zero.
    Le,
    /// `>=`: greater-or-equal, answered as one or zero.
    Ge,
}

/// A built-in that pops one operand and pushes one result.
#[derive(Clone, Copy, PartialEq, Eq, Debug)]
pub enum Op1 {
    /// `sqrt`: square root.
    Sqrt,
    /// `exp`: the exponential function.
    Exp,
}

/// A built-in operation, with its stack discipline.
#[derive(Clone, Copy, PartialEq, Eq, Debug)]
pub enum Builtin {
    /// Pops two, pushes the host's answer.
    Binary(Op2),
    /// Pops one, pushes the host's answer.
    Unary(Op1),
    /// `?`: pops three — if-false branch, if-true branch, condition, in
    /// that order — and pushes the branch that the condition selects.
    Select,
    /// `.`: pops one value and has the host print it.
    Print,
}

/// The built-in bound to `name`, if any.
pub open spec fn builtin_of(name: Seq<char>) -> Option<Builtin> {
    if name.len() == 1 {
        let c = name[0];
        if c == '+' {
            Some(Builtin::Binary(Op2::Add))
        } else if c == '-' {
            Some(Builtin::Binary(Op2::Sub))
        } else if c == '*' {
            Some(Builtin::Binary(Op2::Mul))
        } else if c == '/' {
            Some(Builtin::Binary(Op2::Div))
        } else if c == '^' {
            Some(Builtin::Binary(Op2::Pow))
        } else if c == '=' {
            Some(Builtin::Binary(Op2::Eq))
        } else if c == '<' {
            Some(Builtin::Binary(Op2::Lt))
        } else if c == '>' {
            Some(Builtin::Binary(Op2::Gt))
        } else if c == '?' {
            Some(Builtin::Select)
        } else if c == '.' {
            Some(Builtin::Print)
        } else {
            None
        }
    } else if name.len() == 2 {
        if name[0] == '<' && name[1] == '=' {
            Some(Builtin::Binary(Op2::Le))
        } else if name[0] == '>' && name[1] == '=' {
            Some(Builtin::Binary(Op2::Ge))
        } else {
            None
        }
    } else if name.len() == 3 {
        if name[0] == 'e' && name[1] == 'x' && name[2] == 'p' {
            Some(Builtin::Unary(Op1::Exp))
        } else {
            None
        }
    } else if name.len() == 4 {
        if name[0] == 's' && name[1] == 'q' && name[2] == 'r' && name[3] == 't' {
            Some(Builtin::Unary(Op1::Sqrt))
        } else {
            None
        }
    } else {
        None
    }
}

/// Decides [`builtin_of`].
pub fn lookup_builtin(name: &String) -> (r: Option<Builtin>)
    ensures
        r == builtin_of(name@),
{
    let s = name.as_str();
    let n = s.unicode_len();
    if n == 1 {
        let c = s.get_char(0);
        if c == '+' {
            Some(Builtin::Binary(Op2::Add))
        } else if c == '-' {
            Some(Builtin::Binary(Op2::Sub))
        } else if c == '*' {
            Some(Builtin::Binary(Op2::Mul))
        } else if c == '/' {
            Some(Builtin::Binary(Op2::Div))
        } else if c == '^' {
            Some(Builtin::Binary(Op2::Pow))
        } else if c == '=' {
            Some(Builtin::Binary(Op2::Eq))
        } else if c == '<' {
            Some(Builtin::Binary(Op2::Lt))
        } else if c == '>' {
            Some(Builtin::Binary(Op2::Gt))
        } else if c == '?' {
            Some(Builtin::Select)
        } else if c == '.' {
            Some(Builtin::Print)
        } else {
            None
        }
    } else if n == 2 {
        let c0 = s.get_char(0);
        let c1 = s.get_char(1);
        if c0 == '<' && c1 == '=' {
            Some(Builtin::Binary(Op2::Le))
        } else if c0 == '>' && c1 == '=' {
            Some(Builtin::Binary(Op2::Ge))
        } else {
            None
        }
    } else if n == 3 {
        if s.get_char(0) == 'e' && s.get_char(1) == 'x' && s.get_char(2) == 'p' {
            Some(Builtin::Unary(Op1::Exp))
        } else {
            None
        }
    } else if n == 4 {
        if s.get_char(0) == 's' && s.get_char(1) == 'q' && s.get_char(2) == 'r' && s.get_char(3)
            == 't' {
            Some(Builtin::Unary(Op1::Sqrt))
        } else {
            None
        }
    } else {
        None
    }
}

} // verus!
