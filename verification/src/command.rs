//! The vocabulary shared by the assembler and the engine: values,
//! instructions and failures, each with its mathematical view.

use crate::text::{int_text, int_to_text};
use vstd::prelude::*;

verus! {

/// What a [`Value`] denotes: text is a sequence of characters.
pub enum ValueView {
    Nothing,
    Int(i64),
    Text(Seq<char>),
}

/// A runtime value.
#[derive(Debug)]
pub enum Value {
    /// The absence of a result.
    Nothing,
    /// A signed 64-bit integer.
    Int(i64),
    /// Owned text.
    String(String),
}

impl View for Value {
    type V = ValueView;

    open spec fn view(&self) -> ValueView {
        match self {
            Value::Nothing => ValueView::Nothing,
            Value::Int(n) => ValueView::Int(*n),
            Value::String(s) => ValueView::Text(s@),
        }
    }
}

impl Clone for Value {
    fn clone(&self) -> (res: Self)
        ensures
            res == *self,
    {
        match self {
            Value::Nothing => Value::Nothing,
            Value::Int(n) => Value::Int(*n),
            Value::String(s) => Value::String(s.clone()),
        }
    }
}

impl PartialEq for Value {
    fn eq(&self, other: &Self) -> (res: bool) {
        match self {
            Value::Nothing => match other {
                Value::Nothing => true,
                _ => false,
            },
            Value::Int(a) => match other {
                Value::Int(b) => *a == *b,
                _ => false,
            },
            Value::String(a) => match other {
                Value::String(b) => String::eq(a, b),
                _ => false,
            },
        }
    }
}

impl vstd::std_specs::cmp::PartialEqSpecImpl for Value {
    open spec fn obeys_eq_spec() -> bool {
        true
    }

    open spec fn eq_spec(&self, other: &Self) -> bool {
        self@ == other@
    }
}


/// What a [`Command`] denotes.
pub enum CommandView {
    SetVar(Seq<char>, ValueView),
    GetVar(Seq<char>),
    Push(ValueView),
    Pop,
    Add,
    Sub,
    Mul,
    Div,
    Cmp,
    FuncCall(Seq<char>),
    Ret,
    Jz(Seq<char>),
    Jp(Seq<char>),
    Jn(Seq<char>),
    End,
}

/// One instruction of the machine.
#[derive(Debug)]
pub enum Command {
    /// Bind a variable to a value.
    SetVar(String, Value),
    /// Read a variable as the pending result.
    GetVar(String),
    /// Put a value on the operand stack.
    Push(Value),
    /// Take the top of the operand stack as the pending result.
    Pop,
    Add,
    Sub,
    Mul,
    Div,
    /// Three-way comparison of the two topmost operands.
    Cmp,
    /// Call a function by name, or emit a value when the name is `print`.
    FuncCall(String),
    /// Return to the instruction after the matching call.
    Ret,
    /// Jump to a label when the popped operand is zero.
    Jz(String),
    /// Jump to a label when the popped operand is positive.
    Jp(String),
    /// Jump to a label when the popped operand is negative.
    Jn(String),
    /// Stop the evaluation.
    End,
}

impl View for Command {
    type V = CommandView;

    open spec fn view(&self) -> CommandView {
        match self {
            Command::SetVar(name, value) => CommandView::SetVar(name@, value@),
            Command::GetVar(name) => CommandView::GetVar(name@),
            Command::Push(value) => CommandView::Push(value@),
            Command::Pop => CommandView::Pop,
            Command::Add => CommandView::Add,
            Command::Sub => CommandView::Sub,
            Command::Mul => CommandView::Mul,
            Command::Div => CommandView::Div,
            Command::Cmp => CommandView::Cmp,
            Command::FuncCall(name) => CommandView::FuncCall(name@),
            Command::Ret => CommandView::Ret,
            Command::Jz(label) => CommandView::Jz(label@),
            Command::Jp(label) => CommandView::Jp(label@),
            Command::Jn(label) => CommandView::Jn(label@),
            Command::End => CommandView::End,
        }
    }
}

/// What an [`EngineError`] denotes.
pub enum ErrorView {
    MissingVariable(Seq<char>),
    MismatchNumParams,
    MismatchType,
    UnknownCommand(Seq<char>),
    EmptyStack,
    UnknownFunction(Seq<char>),
    UnknownLabel(Seq<char>),
    DivisionByZero,
    Overflow,
    StepLimit,
}

/// Why assembling or evaluating a program failed.
#[derive(Debug)]
pub enum EngineError {
    /// A variable was read before it was bound.
    MissingVariable(String),
    /// A source line has the wrong number of arguments.
    MismatchNumParams,
    /// An operand or a literal is not of the kind the operation needs.
    MismatchType,
    /// The first word of a source line is no mnemonic, label or directive.
    UnknownCommand(String),
    /// An operand or a return address was needed and the stack was empty.
    EmptyStack,
    /// A call names a function that the program does not declare.
    UnknownFunction(String),
    /// A taken jump names a label that the program does not declare.
    UnknownLabel(String),
    /// The divisor of a division is zero.
    DivisionByZero,
    /// The result of an arithmetic instruction does not fit in 64 bits.
    Overflow,
    /// The evaluation used up its budget of instructions.
    StepLimit,
}

impl View for EngineError {
    type V = ErrorView;

    open spec fn view(&self) -> ErrorView {
        match self {
            EngineError::MissingVariable(name) => ErrorView::MissingVariable(name@),
            EngineError::MismatchNumParams => ErrorView::MismatchNumParams,
            EngineError::MismatchType => ErrorView::MismatchType,
            EngineError::UnknownCommand(word) => ErrorView::UnknownCommand(word@),
            EngineError::EmptyStack => ErrorView::EmptyStack,
            EngineError::UnknownFunction(name) => ErrorView::UnknownFunction(name@),
            EngineError::UnknownLabel(name) => ErrorView::UnknownLabel(name@),
            EngineError::DivisionByZero => ErrorView::DivisionByZero,
            EngineError::Overflow => ErrorView::Overflow,
            EngineError::StepLimit => ErrorView::StepLimit,
        }
    }
}


/// What the result of an operation that yields a value denotes.
pub open spec fn value_result(r: Result<Value, EngineError>) -> Result<ValueView, ErrorView> {
    match r {
        Ok(v) => Ok(v@),
        Err(e) => Err(e@),
    }
}

/// What the result of reading one instruction denotes.
pub open spec fn command_result(r: Result<Command, EngineError>) -> Result<
    CommandView,
    ErrorView,
> {
    match r {
        Ok(c) => Ok(c@),
        Err(e) => Err(e@),
    }
}


impl ValueView {
    /// The form in which a value is shown: `void` for no value, an
    /// integer in base ten, text between double quotes.
    pub open spec fn text(self) -> Seq<char> {
        match self {
            ValueView::Nothing => "void"@,
            ValueView::Int(n) => int_text(n as int),
            ValueView::Text(t) => seq!['"'] + t + seq!['"'],
        }
    }
}

impl Value {
    /// The form in which the value is shown.
    pub fn to_text(&self) -> (s: String)
        ensures
            s@ == self@.text(),
    {
        match self {
            Value::Nothing => "void".to_owned(),
            Value::Int(n) => int_to_text(*n),
            Value::String(t) => {
                proof {
                    reveal_strlit("\"");
                }
                let mut s = String::new();
                s.append("\"");
                s.append(t.as_str());
                s.append("\"");
                assert(s@ =~= seq!['"'] + t@ + seq!['"']);
                s
            },
        }
    }
}

} // verus!
