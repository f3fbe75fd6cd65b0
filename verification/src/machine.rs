//! The machine as mathematics: its state, what one instruction does to
//! it, and what a whole evaluation yields.

use crate::command::{CommandView, ErrorView, ValueView};
use crate::parser::ProgramView;
use vstd::prelude::*;

verus! {

/// The state of an evaluation.
pub struct Machine {
    /// The index of the next instruction.
    pub pc: usize,
    /// The operand stack; its top is the last element.
    pub stack: Seq<ValueView>,
    /// The return addresses of the calls in progress, innermost last.
    pub calls: Seq<usize>,
    /// The variables that are bound.
    pub vars: Map<Seq<char>, ValueView>,
    /// The pending result: what the last `get` or `pop` produced.
    pub result: ValueView,
    /// The values that calls of `print` have emitted, oldest first.
    pub printed: Seq<ValueView>,
}

/// What executing one instruction leads to.
pub enum Transition {
    /// The evaluation goes on in the given state.
    Next(Machine),
    /// The evaluation is over; the state stays as it is.
    Halt,
    /// The instruction fails; the state stays as it is.
    Fail(ErrorView),
}

impl Machine {
    /// The state before anything has run, about to execute `entry`.
    pub open spec fn at(entry: usize) -> Machine {
        Machine {
            pc: entry,
            stack: Seq::empty(),
            calls: Seq::empty(),
            vars: Map::empty(),
            result: ValueView::Nothing,
            printed: Seq::empty(),
        }
    }

    /// The index of the instruction after the current one.
    pub open spec fn next_pc(self) -> usize {
        (self.pc + 1) as usize
    }

    /// The state one instruction further on.
    pub open spec fn advance(self) -> Machine {
        Machine { pc: self.next_pc(), ..self }
    }

    /// The state with `pc` set to `target`.
    pub open spec fn goto(self, target: usize) -> Machine {
        Machine { pc: target, ..self }
    }

    /// The state with `value` on top of the operand stack.
    pub open spec fn pushed(self, value: ValueView) -> Machine {
        Machine { stack: self.stack.push(value), ..self }
    }

    /// The state without the top `count` operands.
    pub open spec fn dropped(self, count: int) -> Machine {
        Machine { stack: self.stack.take(self.stack.len() - count), ..self }
    }

    /// The operand that lies `depth` places below the top of the stack.
    pub open spec fn operand(self, depth: int) -> ValueView {
        self.stack[self.stack.len() - 1 - depth]
    }
}

/// The value of an arithmetic result, which must fit in 64 bits.
pub open spec fn int_result(n: int) -> Result<ValueView, ErrorView> {
    if i64::MIN <= n <= i64::MAX {
        Ok(ValueView::Int(n as i64))
    } else {
        Err(ErrorView::Overflow)
    }
}

/// `left + right`, on integers.
pub open spec fn sum(left: ValueView, right: ValueView) -> Result<ValueView, ErrorView> {
    match (left, right) {
        (ValueView::Int(a), ValueView::Int(b)) => int_result(a + b),
        _ => Err(ErrorView::MismatchType),
    }
}

/// `left - right`, on integers.
pub open spec fn difference(left: ValueView, right: ValueView) -> Result<ValueView, ErrorView> {
    match (left, right) {
        (ValueView::Int(a), ValueView::Int(b)) => int_result(a - b),
        _ => Err(ErrorView::MismatchType),
    }
}

/// `left * right`, on integers.
pub open spec fn product(left: ValueView, right: ValueView) -> Result<ValueView, ErrorView> {
    match (left, right) {
        (ValueView::Int(a), ValueView::Int(b)) => int_result(a * b),
        _ => Err(ErrorView::MismatchType),
    }
}

/// The quotient of `a` by `b` rounded towards zero, for `b` other than
/// zero.
pub open spec fn truncated_quotient(a: int, b: int) -> int {
    if a >= 0 && b > 0 {
        a / b
    } else if a < 0 && b < 0 {
        (-a) / (-b)
    } else if a < 0 {
        -((-a) / b)
    } else {
        -(a / (-b))
    }
}

/// `left / right`, on integers, rounded towards zero.
pub open spec fn quotient(left: ValueView, right: ValueView) -> Result<ValueView, ErrorView> {
    match (left, right) {
        (ValueView::Int(a), ValueView::Int(b)) => if b == 0 {
            Err(ErrorView::DivisionByZero)
        } else {
            int_result(truncated_quotient(a as int, b as int))
        },
        _ => Err(ErrorView::MismatchType),
    }
}

/// How `left` stands to `right`: `-1` if it is greater, `0` if they are
/// equal, `1` if it is less.
pub open spec fn comparison(left: ValueView, right: ValueView) -> Result<ValueView, ErrorView> {
    match (left, right) {
        (ValueView::Int(a), ValueView::Int(b)) => Ok(
            ValueView::Int(
                if a > b {
                    -1i64
                } else if a == b {
                    0i64
                } else {
                    1i64
                },
            ),
        ),
        _ => Err(ErrorView::MismatchType),
    }
}

/// The sign of an integer: `-1`, `0` or `1`.
pub open spec fn sign(x: i64) -> int {
    if x > 0 {
        1
    } else if x < 0 {
        -1
    } else {
        0
    }
}

/// A binary instruction: the top of the stack is its left operand, the
/// value below it the right one, and `outcome` what the operation makes
/// of them. Both operands give way to the result.
pub open spec fn binary(m: Machine, outcome: Result<ValueView, ErrorView>) -> Transition {
    if m.stack.len() < 2 {
        Transition::Fail(ErrorView::EmptyStack)
    } else {
        match outcome {
            Ok(v) => Transition::Next(m.dropped(2).pushed(v).advance()),
            Err(e) => Transition::Fail(e),
        }
    }
}

/// A conditional jump: the top of the stack is taken off and must be an
/// integer. If its sign is `wanted`, the evaluation goes on at `label`,
/// which the program must declare; otherwise at the next instruction.
pub open spec fn jump(p: ProgramView, m: Machine, label: Seq<char>, wanted: int) -> Transition {
    if m.stack.len() < 1 {
        Transition::Fail(ErrorView::EmptyStack)
    } else {
        match m.operand(0) {
            ValueView::Int(x) => if sign(x) != wanted {
                Transition::Next(m.dropped(1).advance())
            } else if p.labels.contains_key(label) {
                Transition::Next(m.dropped(1).goto(p.labels[label]))
            } else {
                Transition::Fail(ErrorView::UnknownLabel(label))
            },
            _ => Transition::Fail(ErrorView::MismatchType),
        }
    }
}

/// A call: `print` takes the top of the stack off and emits it; any
/// other name must be a function of the program, which the evaluation
/// enters after noting where to return to.
pub open spec fn call(p: ProgramView, m: Machine, name: Seq<char>) -> Transition {
    if name == "print"@ {
        if m.stack.len() < 1 {
            Transition::Fail(ErrorView::EmptyStack)
        } else {
            Transition::Next(
                Machine { printed: m.printed.push(m.operand(0)), ..m.dropped(1).advance() },
            )
        }
    } else if p.functions.contains_key(name) {
        Transition::Next(Machine { calls: m.calls.push(m.next_pc()), ..m.goto(p.functions[name]) })
    } else {
        Transition::Fail(ErrorView::UnknownFunction(name))
    }
}

/// What executing `command` in state `m` leads to.
pub open spec fn execute(p: ProgramView, m: Machine, command: CommandView) -> Transition {
    match command {
        CommandView::SetVar(name, value) => Transition::Next(
            Machine { vars: m.vars.insert(name, value), ..m.advance() },
        ),
        CommandView::GetVar(name) => if m.vars.contains_key(name) {
            Transition::Next(Machine { result: m.vars[name], ..m.advance() })
        } else {
            Transition::Fail(ErrorView::MissingVariable(name))
        },
        CommandView::Push(value) => Transition::Next(m.pushed(value).advance()),
        CommandView::Pop => if m.stack.len() < 1 {
            Transition::Fail(ErrorView::EmptyStack)
        } else {
            Transition::Next(Machine { result: m.operand(0), ..m.dropped(1).advance() })
        },
        CommandView::Add => binary(m, sum(m.operand(0), m.operand(1))),
        CommandView::Sub => binary(m, difference(m.operand(0), m.operand(1))),
        CommandView::Mul => binary(m, product(m.operand(0), m.operand(1))),
        CommandView::Div => binary(m, quotient(m.operand(0), m.operand(1))),
        CommandView::Cmp => binary(m, comparison(m.operand(0), m.operand(1))),
        CommandView::FuncCall(name) => call(p, m, name),
        CommandView::Ret => if m.calls.len() < 1 {
            Transition::Fail(ErrorView::EmptyStack)
        } else {
            Transition::Next(
                Machine { calls: m.calls.drop_last(), ..m.goto(m.calls[m.calls.len() - 1]) },
            )
        },
        CommandView::Jz(label) => jump(p, m, label, 0),
        CommandView::Jp(label) => jump(p, m, label, 1),
        CommandView::Jn(label) => jump(p, m, label, -1),
        CommandView::End => Transition::Halt,
    }
}

/// One step of the evaluation: past the last instruction it halts,
/// otherwise it executes the instruction at `pc`.
pub open spec fn step(p: ProgramView, m: Machine) -> Transition {
    if m.pc >= p.commands.len() {
        Transition::Halt
    } else {
        execute(p, m, p.commands[m.pc as int])
    }
}

/// The state in which an evaluation that starts in `m` comes to rest,
/// and what it yields: the pending result when it halts, the error when
/// an instruction fails, and `StepLimit` when neither has happened
/// within `fuel` steps, the step that halts or fails included.
pub open spec fn run(p: ProgramView, m: Machine, fuel: nat) -> (Machine, Result<
    ValueView,
    ErrorView,
>)
    decreases fuel,
{
    if fuel == 0 {
        (m, Err(ErrorView::StepLimit))
    } else {
        match step(p, m) {
            Transition::Halt => (m, Ok(m.result)),
            Transition::Fail(e) => (m, Err(e)),
            Transition::Next(n) => run(p, n, (fuel - 1) as nat),
        }
    }
}

/// An evaluation of the whole program: it starts at the function `main`
/// with nothing on the stacks and no variable bound.
pub open spec fn evaluation(p: ProgramView, fuel: nat) -> (Machine, Result<ValueView, ErrorView>) {
    if p.functions.contains_key("main"@) {
        run(p, Machine::at(p.functions["main"@]), fuel)
    } else {
        (Machine::at(0), Err(ErrorView::UnknownFunction("main"@)))
    }
}

} // verus!
