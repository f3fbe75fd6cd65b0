//! The execution engine: it runs an assembled program on the machine
//! that [`crate::machine`] describes.

use crate::command::{value_result, Command, EngineError, ErrorView, Value, ValueView};
use crate::machine::{
    comparison, difference, evaluation, product, quotient, run, step, sum, Machine, Transition,
};
use crate::parser::Program;
use crate::text::str_eq;
use vstd::hash_map::StringHashMap;
use vstd::prelude::*;

verus! {

/// How a step left the evaluation.
#[derive(Debug, Clone, Copy, PartialEq, Eq, Structural)]
pub enum Step {
    /// An instruction was executed and the evaluation goes on.
    Continue,
    /// The evaluation is over.
    Halt,
}

/// The engine. It owns the state of one evaluation.
pub struct Evaluator {
    vars: StringHashMap<Value>,
    stack: Vec<Value>,
    pc: usize,
    pc_stack: Vec<usize>,
    result: Value,
    printed: Vec<Value>,
}

/// What a list of values denotes.
pub open spec fn values(v: Seq<Value>) -> Seq<ValueView> {
    v.map_values(|x: Value| x@)
}

impl View for Evaluator {
    type V = Machine;

    closed spec fn view(&self) -> Machine {
        Machine {
            pc: self.pc,
            stack: values(self.stack@),
            calls: self.pc_stack@,
            vars: self.vars@.map_values(|x: Value| x@),
            result: self.result@,
            printed: values(self.printed@),
        }
    }
}

impl Evaluator {
    /// An engine at rest: nothing on the stacks, no variable bound.
    pub fn new() -> (e: Self)
        ensures
            e@ == Machine::at(0),
    {
        let e = Self {
            vars: StringHashMap::new(),
            stack: Vec::new(),
            pc: 0,
            pc_stack: Vec::new(),
            result: Value::Nothing,
            printed: Vec::new(),
        };
        assert(e@.stack =~= Seq::empty());
        assert(e@.printed =~= Seq::empty());
        assert(e@.vars =~= Map::empty());
        e
    }

    /// Puts a value on top of the operand stack.
    pub fn push(&mut self, value: Value) -> (r: Result<(), EngineError>)
        ensures
            r is Ok,
            final(self)@ == old(self)@.pushed(value@),
    {
        self.stack.push(value);
        assert(self@.stack =~= old(self)@.stack.push(value@));
        Ok(())
    }

    /// Takes the top of the operand stack off.
    pub fn pop(&mut self) -> (r: Result<Value, EngineError>)
        ensures
            match r {
                Ok(v) => {
                    &&& old(self)@.stack.len() >= 1
                    &&& v@ == old(self)@.operand(0)
                    &&& final(self)@ == old(self)@.dropped(1)
                },
                Err(e) => {
                    &&& old(self)@.stack.len() == 0
                    &&& e@ == ErrorView::EmptyStack
                    &&& final(self)@ == old(self)@
                },
            },
    {
        let result = self.stack.pop();
        match result {
            Some(x) => {
                assert(self@.stack =~= old(self)@.stack.take(old(self)@.stack.len() - 1));
                Ok(x)
            },
            None => Err(EngineError::EmptyStack),
        }
    }

    /// Adds two integers.
    pub fn add(&self, lhs: Value, rhs: Value) -> (r: Result<Value, EngineError>)
        ensures
            value_result(r) == sum(lhs@, rhs@),
    {
        match (lhs, rhs) {
            (Value::Int(a), Value::Int(b)) => match a.checked_add(b) {
                Some(n) => Ok(Value::Int(n)),
                None => Err(EngineError::Overflow),
            },
            _ => Err(EngineError::MismatchType),
        }
    }

    /// Subtracts `rhs` from `lhs`.
    pub fn sub(&self, lhs: Value, rhs: Value) -> (r: Result<Value, EngineError>)
        ensures
            value_result(r) == difference(lhs@, rhs@),
    {
        match (lhs, rhs) {
            (Value::Int(a), Value::Int(b)) => match a.checked_sub(b) {
                Some(n) => Ok(Value::Int(n)),
                None => Err(EngineError::Overflow),
            },
            _ => Err(EngineError::MismatchType),
        }
    }

    /// Multiplies two integers.
    pub fn mul(&self, lhs: Value, rhs: Value) -> (r: Result<Value, EngineError>)
        ensures
            value_result(r) == product(lhs@, rhs@),
    {
        match (lhs, rhs) {
            (Value::Int(a), Value::Int(b)) => match a.checked_mul(b) {
                Some(n) => Ok(Value::Int(n)),
                None => Err(EngineError::Overflow),
            },
            _ => Err(EngineError::MismatchType),
        }
    }

    /// Divides `lhs` by `rhs`, rounding towards zero.
    pub fn div(&self, lhs: Value, rhs: Value) -> (r: Result<Value, EngineError>)
        ensures
            value_result(r) == quotient(lhs@, rhs@),
    {
        match (lhs, rhs) {
            (Value::Int(a), Value::Int(b)) => {
                if b == 0 {
                    return Err(EngineError::DivisionByZero);
                }
                match a.checked_div(b) {
                    Some(n) => Ok(Value::Int(n)),
                    None => Err(EngineError::Overflow),
                }
            },
            _ => Err(EngineError::MismatchType),
        }
    }

    /// Compares two integers: `-1` if `lhs` is greater, `0` if they are
    /// equal, `1` if `lhs` is less.
    pub fn cmp(&self, lhs: Value, rhs: Value) -> (r: Result<Value, EngineError>)
        ensures
            value_result(r) == comparison(lhs@, rhs@),
    {
        match (lhs, rhs) {
            (Value::Int(a), Value::Int(b)) => {
                if a > b {
                    return Ok(Value::Int(-1));
                }
                if a == b {
                    return Ok(Value::Int(0));
                }
                Ok(Value::Int(1))
            },
            _ => Err(EngineError::MismatchType),
        }
    }
}


impl Evaluator {
    /// The two topmost operands, the top first.
    fn operands(&self) -> (r: Result<(Value, Value), EngineError>)
        ensures
            match r {
                Ok(pair) => {
                    &&& self@.stack.len() >= 2
                    &&& pair.0@ == self@.operand(0)
                    &&& pair.1@ == self@.operand(1)
                },
                Err(e) => self@.stack.len() < 2 && e@ == ErrorView::EmptyStack,
            },
    {
        let n = self.stack.len();
        if n < 2 {
            return Err(EngineError::EmptyStack);
        }
        Ok((self.stack[n - 1].clone(), self.stack[n - 2].clone()))
    }

    /// What a binary instruction makes of its operands.
    fn apply(&self, command: &Command, lhs: Value, rhs: Value) -> (r: Result<Value, EngineError>)
        requires
            command@ is Add || command@ is Sub || command@ is Mul || command@ is Div
                || command@ is Cmp,
        ensures
            value_result(r) == match command@ {
                crate::command::CommandView::Add => sum(lhs@, rhs@),
                crate::command::CommandView::Sub => difference(lhs@, rhs@),
                crate::command::CommandView::Mul => product(lhs@, rhs@),
                crate::command::CommandView::Div => quotient(lhs@, rhs@),
                _ => comparison(lhs@, rhs@),
            },
    {
        match command {
            Command::Add => self.add(lhs, rhs),
            Command::Sub => self.sub(lhs, rhs),
            Command::Mul => self.mul(lhs, rhs),
            Command::Div => self.div(lhs, rhs),
            _ => self.cmp(lhs, rhs),
        }
    }

    /// Replaces the two topmost operands by `value` and moves on.
    fn settle(&mut self, value: Value)
        requires
            old(self)@.stack.len() >= 2,
            old(self)@.pc < usize::MAX,
        ensures
            final(self)@ == old(self)@.dropped(2).pushed(value@).advance(),
    {
        self.stack.pop();
        self.stack.pop();
        self.stack.push(value);
        self.pc = self.pc + 1;
        assert(self@.stack =~= old(self)@.dropped(2).pushed(value@).stack);
    }

    /// A conditional jump to `label`, taken when the sign of the popped
    /// operand is `wanted`.
    fn jump(&mut self, program: &Program, label: &String, wanted: i8) -> (r: Result<
        (),
        EngineError,
    >)
        requires
            old(self)@.pc < usize::MAX,
        ensures
            match crate::machine::jump(program@, old(self)@, label@, wanted as int) {
                Transition::Next(m) => r is Ok && final(self)@ == m,
                Transition::Halt => false,
                Transition::Fail(e) => r matches Err(x) && x@ == e && final(self)@ == old(self)@,
            },
    {
        let n = self.stack.len();
        if n < 1 {
            return Err(EngineError::EmptyStack);
        }
        let x = match &self.stack[n - 1] {
            Value::Int(x) => *x,
            _ => {
                return Err(EngineError::MismatchType);
            },
        };
        let sign: i8 = if x > 0 {
            1
        } else if x < 0 {
            -1
        } else {
            0
        };
        if sign != wanted {
            self.stack.pop();
            self.pc = self.pc + 1;
            assert(self@.stack =~= old(self)@.dropped(1).stack);
            return Ok(());
        }
        match program.labels.get(label.as_str()) {
            Some(target) => {
                self.stack.pop();
                self.pc = *target;
                assert(self@.stack =~= old(self)@.dropped(1).stack);
                Ok(())
            },
            None => Err(EngineError::UnknownLabel(label.clone())),
        }
    }

    /// A call of `name`: `print` emits the top of the stack, any other
    /// name enters a function of the program.
    fn call(&mut self, program: &Program, name: &String) -> (r: Result<(), EngineError>)
        requires
            old(self)@.pc < usize::MAX,
        ensures
            match crate::machine::call(program@, old(self)@, name@) {
                Transition::Next(m) => r is Ok && final(self)@ == m,
                Transition::Halt => false,
                Transition::Fail(e) => r matches Err(x) && x@ == e && final(self)@ == old(self)@,
            },
    {
        if str_eq(name.as_str(), "print") {
            match self.stack.pop() {
                Some(value) => {
                    self.printed.push(value);
                    self.pc = self.pc + 1;
                    assert(self@.stack =~= old(self)@.dropped(1).stack);
                    assert(self@.printed =~= old(self)@.printed.push(old(self)@.operand(0)));
                    Ok(())
                },
                None => Err(EngineError::EmptyStack),
            }
        } else {
            match program.functions.get(name.as_str()) {
                Some(target) => {
                    self.pc_stack.push(self.pc + 1);
                    self.pc = *target;
                    Ok(())
                },
                None => Err(EngineError::UnknownFunction(name.clone())),
            }
        }
    }

    /// Executes the instruction at the program counter. A step that
    /// halts or fails leaves the engine as it was.
    pub fn step(&mut self, program: &Program) -> (r: Result<Step, EngineError>)
        ensures
            match step(program@, old(self)@) {
                Transition::Next(m) => r == Ok::<Step, EngineError>(Step::Continue) && final(self)@
                    == m,
                Transition::Halt => r == Ok::<Step, EngineError>(Step::Halt) && final(self)@
                    == old(self)@,
                Transition::Fail(e) => r matches Err(x) && x@ == e && final(self)@ == old(self)@,
            },
    {
        if self.pc >= program.commands.len() {
            return Ok(Step::Halt);
        }
        let command = &program.commands[self.pc];
        assert(program@.commands[self.pc as int] == command@);
        match command {
            Command::SetVar(name, value) => {
                self.vars.insert(name.clone(), value.clone());
                self.pc = self.pc + 1;
                assert(self@.vars =~= old(self)@.vars.insert(name@, value@));
            },
            Command::GetVar(name) => match self.vars.get(name.as_str()) {
                Some(value) => {
                    self.result = value.clone();
                    self.pc = self.pc + 1;
                },
                None => {
                    return Err(EngineError::MissingVariable(name.clone()));
                },
            },
            Command::Push(value) => {
                self.push(value.clone())?;
                self.pc = self.pc + 1;
            },
            Command::Pop => {
                self.result = self.pop()?;
                self.pc = self.pc + 1;
            },
            Command::Add | Command::Sub | Command::Mul | Command::Div | Command::Cmp => {
                let (lhs, rhs) = self.operands()?;
                let value = self.apply(command, lhs, rhs)?;
                self.settle(value);
            },
            Command::FuncCall(name) => {
                self.call(program, name)?;
            },
            Command::Ret => match self.pc_stack.pop() {
                Some(pc) => {
                    self.pc = pc;
                },
                None => {
                    return Err(EngineError::EmptyStack);
                },
            },
            Command::Jz(label) => {
                self.jump(program, label, 0)?;
            },
            Command::Jp(label) => {
                self.jump(program, label, 1)?;
            },
            Command::Jn(label) => {
                self.jump(program, label, -1)?;
            },
            Command::End => {
                return Ok(Step::Halt);
            },
        }
        Ok(Step::Continue)
    }
}


impl Evaluator {
    /// The pending result: what the last `get` or `pop` produced.
    pub fn result(&self) -> (v: &Value)
        ensures
            v@ == self@.result,
    {
        &self.result
    }

    /// The values that `print` has emitted so far, oldest first.
    pub fn printed(&self) -> (v: &Vec<Value>)
        ensures
            values(v@) == self@.printed,
    {
        &self.printed
    }

    /// Hands out the values that `print` has emitted so far, oldest
    /// first, and forgets them.
    pub fn take_printed(&mut self) -> (v: Vec<Value>)
        ensures
            values(v@) == old(self)@.printed,
            final(self)@ == (Machine { printed: Seq::empty(), ..old(self)@ }),
    {
        let mut taken: Vec<Value> = Vec::new();
        std::mem::swap(&mut taken, &mut self.printed);
        assert(self@.printed =~= Seq::empty());
        taken
    }

    /// Makes the engine ready to evaluate `program` from its function
    /// `main`, forgetting whatever state an earlier evaluation left.
    pub fn start(&mut self, program: &Program) -> (r: Result<(), EngineError>)
        ensures
            match r {
                Ok(_) => {
                    &&& program@.functions.contains_key("main"@)
                    &&& final(self)@ == Machine::at(program@.functions["main"@])
                },
                Err(e) => {
                    &&& !program@.functions.contains_key("main"@)
                    &&& e@ == ErrorView::UnknownFunction("main"@)
                    &&& final(self)@ == Machine::at(0)
                },
            },
    {
        *self = Evaluator::new();
        match program.functions.get("main") {
            Some(entry) => {
                self.pc = *entry;
                Ok(())
            },
            None => Err(EngineError::UnknownFunction("main".to_owned())),
        }
    }

    /// Goes on with the evaluation from the state the engine is in, for
    /// at most `max_steps` steps.
    pub fn run(&mut self, program: &Program, max_steps: u64) -> (r: Result<Value, EngineError>)
        ensures
            (final(self)@, value_result(r)) == run(program@, old(self)@, max_steps as nat),
    {
        let mut left = max_steps;
        while left > 0
            invariant
                run(program@, self@, left as nat) == run(program@, old(self)@, max_steps as nat),
            decreases left,
        {
            match self.step(program) {
                Ok(Step::Continue) => {},
                Ok(Step::Halt) => {
                    return Ok(self.result.clone());
                },
                Err(e) => {
                    return Err(e);
                },
            }
            left = left - 1;
        }
        Err(EngineError::StepLimit)
    }

    /// Evaluates `program` from its function `main` to its result. An
    /// evaluation that has not come to rest after `u64::MAX` steps ends
    /// with `StepLimit`.
    pub fn evaluate(&mut self, program: &Program) -> (r: Result<Value, EngineError>)
        ensures
            (final(self)@, value_result(r)) == evaluation(program@, u64::MAX as nat),
    {
        match self.start(program) {
            Ok(()) => self.run(program, u64::MAX),
            Err(e) => Err(e),
        }
    }
}

} // verus!
