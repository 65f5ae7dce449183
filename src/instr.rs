//! The instruction alphabet and the primitive table.
use vstd::prelude::*;

verus! {

/// A built-in operation of the stack machine.
#[derive(Clone, Copy, Debug, PartialEq, Eq, Structural)]
pub enum Primitive {
    Add,
    Sub,
    Mul,
    Div,
    Pow,
    Log,
    Sqrt,
    Neg,
    Not,
    Reverse,
    Flip,
    Dup,
    Over,
    Pop,
    Rotate,
    Take,
    Drop,
    Select,
    Pick,
    Untake,
    Undrop,
    Unselect,
    Unpick,
    First,
    Last,
    Join,
    Call,
    Invert,
    Repeat,
    Pi,
    Noop,
}

/// How many values a primitive consumes; `None` for variadic ones.
pub open spec fn spec_args(p: Primitive) -> Option<nat> {
    match p {
        Primitive::Add | Primitive::Sub | Primitive::Mul | Primitive::Div | Primitive::Pow
        | Primitive::Log | Primitive::Flip | Primitive::Over | Primitive::Rotate
        | Primitive::Take | Primitive::Drop | Primitive::Select | Primitive::Pick
        | Primitive::Join => Some(2),
        Primitive::Sqrt | Primitive::Neg | Primitive::Not | Primitive::Reverse
        | Primitive::Dup | Primitive::Pop | Primitive::First | Primitive::Last => Some(1),
        Primitive::Untake | Primitive::Undrop | Primitive::Unselect | Primitive::Unpick => Some(3),
        Primitive::Pi | Primitive::Noop => Some(0),
        Primitive::Call | Primitive::Invert | Primitive::Repeat => None,
    }
}

/// How many values a primitive produces; `None` for variadic ones.
pub open spec fn spec_outputs(p: Primitive) -> Option<nat> {
    match p {
        Primitive::Add | Primitive::Sub | Primitive::Mul | Primitive::Div | Primitive::Pow
        | Primitive::Log | Primitive::Rotate | Primitive::Take | Primitive::Drop
        | Primitive::Select | Primitive::Pick | Primitive::Join | Primitive::Sqrt
        | Primitive::Neg | Primitive::Not | Primitive::Reverse | Primitive::First
        | Primitive::Last | Primitive::Untake | Primitive::Undrop | Primitive::Unselect
        | Primitive::Unpick | Primitive::Pi => Some(1),
        Primitive::Flip => Some(2),
        Primitive::Dup => Some(2),
        Primitive::Over => Some(3),
        Primitive::Pop | Primitive::Noop => Some(0),
        Primitive::Call | Primitive::Invert | Primitive::Repeat => None,
    }
}

/// The algebraic inverse of a primitive, where it has one without an
/// operand. Addition and subtraction need their operand and are left to the
/// "value, operator" rules.
pub open spec fn spec_inverse(p: Primitive) -> Option<Primitive> {
    match p {
        Primitive::Mul => Some(Primitive::Div),
        Primitive::Div => Some(Primitive::Mul),
        Primitive::Neg => Some(Primitive::Neg),
        Primitive::Not => Some(Primitive::Not),
        Primitive::Reverse => Some(Primitive::Reverse),
        Primitive::Flip => Some(Primitive::Flip),
        Primitive::Call => Some(Primitive::Invert),
        Primitive::Invert => Some(Primitive::Call),
        _ => None,
    }
}

impl Primitive {
    pub fn args(&self) -> (r: Option<usize>)
        ensures
            r matches Some(n) ==> spec_args(*self) == Some(n as nat),
            r is None ==> spec_args(*self) is None,
    {
        match self {
            Primitive::Add | Primitive::Sub | Primitive::Mul | Primitive::Div | Primitive::Pow
            | Primitive::Log | Primitive::Flip | Primitive::Over | Primitive::Rotate
            | Primitive::Take | Primitive::Drop | Primitive::Select | Primitive::Pick
            | Primitive::Join => Some(2),
            Primitive::Sqrt | Primitive::Neg | Primitive::Not | Primitive::Reverse
            | Primitive::Dup | Primitive::Pop | Primitive::First | Primitive::Last => Some(1),
            Primitive::Untake | Primitive::Undrop | Primitive::Unselect | Primitive::Unpick => Some(
                3,
            ),
            Primitive::Pi | Primitive::Noop => Some(0),
            Primitive::Call | Primitive::Invert | Primitive::Repeat => None,
        }
    }

    pub fn outputs(&self) -> (r: Option<usize>)
        ensures
            r matches Some(n) ==> spec_outputs(*self) == Some(n as nat),
            r is None ==> spec_outputs(*self) is None,
    {
        match self {
            Primitive::Flip | Primitive::Dup => Some(2),
            Primitive::Over => Some(3),
            Primitive::Pop | Primitive::Noop => Some(0),
            Primitive::Call | Primitive::Invert | Primitive::Repeat => None,
            _ => Some(1),
        }
    }

    pub fn inverse(&self) -> (r: Option<Primitive>)
        ensures
            r == spec_inverse(*self),
    {
        match self {
            Primitive::Mul => Some(Primitive::Div),
            Primitive::Div => Some(Primitive::Mul),
            Primitive::Neg => Some(Primitive::Neg),
            Primitive::Not => Some(Primitive::Not),
            Primitive::Reverse => Some(Primitive::Reverse),
            Primitive::Flip => Some(Primitive::Flip),
            Primitive::Call => Some(Primitive::Invert),
            Primitive::Invert => Some(Primitive::Call),
            _ => None,
        }
    }
}

/// A constant pushed by an instruction.
#[derive(Clone, Copy, Debug, PartialEq, Eq, Structural)]
pub enum Value {
    Num(i64),
    /// A function value that encodes a primitive, with its source span.
    Func(Primitive, usize),
}

impl Value {
    /// The primitive that this value encodes, with its span.
    pub fn as_primitive(&self) -> (r: Option<(Primitive, usize)>)
        ensures
            r == spec_as_primitive(*self),
    {
        match self {
            Value::Func(p, span) => Some((*p, *span)),
            Value::Num(_) => None,
        }
    }
}

pub open spec fn spec_as_primitive(v: Value) -> Option<(Primitive, usize)> {
    match v {
        Value::Func(p, span) => Some((p, span)),
        Value::Num(_) => None,
    }
}

/// One instruction of a compiled function.
#[derive(Clone, Copy, Debug, PartialEq, Eq, Structural)]
pub enum Instr {
    /// A primitive call, tagged with its source span.
    Prim(Primitive, usize),
    Push(Value),
    BeginArray,
    EndArray,
    /// A call of a user function by index; no rule reads into it.
    CallGlobal(usize),
}

/// An element of a rewrite template: a literal or a primitive that takes the
/// span of the matched instruction at the same cyclic index.
#[derive(Clone, Copy, Debug, PartialEq, Eq, Structural)]
pub enum Emit {
    Num(i64),
    Op(Primitive),
}

pub open spec fn emit_instr(e: Emit, span: usize) -> Instr {
    match e {
        Emit::Num(n) => Instr::Push(Value::Num(n)),
        Emit::Op(p) => Instr::Prim(p, span),
    }
}

impl Emit {
    pub fn to_instr(&self, span: usize) -> (r: Instr)
        ensures
            r == emit_instr(*self, span),
    {
        match self {
            Emit::Num(n) => Instr::Push(Value::Num(*n)),
            Emit::Op(p) => Instr::Prim(*p, span),
        }
    }
}

} // verus!
