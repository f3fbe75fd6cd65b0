//! Laws of the machine, stated over its mathematical description and
//! proved from it.

use crate::command::{CommandView, ErrorView, ValueView};
use crate::machine::{evaluation, run, sign, step, Machine, Transition};
use crate::parser::ProgramView;
use crate::text::{
    int_literal, int_text, is_digit, is_space, lemma_line_end, lemma_nat_text, lemma_run_end,
    line_end, lines_from, nat_text, run_end, unsigned_part, words_from,
};
use vstd::prelude::*;

verus! {

/// `push a; push b; sub; pop` yields `b - a`: the operand pushed last is
/// the left operand of the subtraction. The law holds wherever `b - a`
/// fits in 64 bits.
pub proof fn law_sub_yields_second_minus_first(p: ProgramView, a: i64, b: i64, fuel: nat)
    requires
        p.commands == seq![
            CommandView::Push(ValueView::Int(a)),
            CommandView::Push(ValueView::Int(b)),
            CommandView::Sub,
            CommandView::Pop,
        ],
        p.functions.contains_key("main"@),
        p.functions["main"@] == 0,
        i64::MIN <= b - a <= i64::MAX,
        fuel >= 5,
    ensures
        evaluation(p, fuel).1 == Ok::<ValueView, ErrorView>(ValueView::Int((b - a) as i64)),
{
    reveal_with_fuel(run, 6);
}

/// `push a; push b; add; pop` yields `a + b`, wherever that fits in 64
/// bits.
pub proof fn law_add_yields_sum(p: ProgramView, a: i64, b: i64, fuel: nat)
    requires
        p.commands == seq![
            CommandView::Push(ValueView::Int(a)),
            CommandView::Push(ValueView::Int(b)),
            CommandView::Add,
            CommandView::Pop,
        ],
        p.functions.contains_key("main"@),
        p.functions["main"@] == 0,
        i64::MIN <= a + b <= i64::MAX,
        fuel >= 5,
    ensures
        evaluation(p, fuel).1 == Ok::<ValueView, ErrorView>(ValueView::Int((a + b) as i64)),
{
    reveal_with_fuel(run, 6);
}

/// `set x v; get x` yields `v`, whatever the name and the value.
pub proof fn law_set_then_get(p: ProgramView, x: Seq<char>, v: ValueView, fuel: nat)
    requires
        p.commands == seq![CommandView::SetVar(x, v), CommandView::GetVar(x)],
        p.functions.contains_key("main"@),
        p.functions["main"@] == 0,
        fuel >= 3,
    ensures
        evaluation(p, fuel).1 == Ok::<ValueView, ErrorView>(v),
{
    reveal_with_fuel(run, 4);
}

/// A program without a function `main` cannot be evaluated.
pub proof fn law_main_must_exist(p: ProgramView, fuel: nat)
    requires
        !p.functions.contains_key("main"@),
    ensures
        evaluation(p, fuel).1 == Err::<ValueView, ErrorView>(
            ErrorView::UnknownFunction("main"@),
        ),
{
}

/// A call of a name that is neither `print` nor a function of the
/// program fails, in whatever state it is executed.
pub proof fn law_call_of_undeclared_function(p: ProgramView, m: Machine, name: Seq<char>)
    requires
        m.pc < p.commands.len(),
        p.commands[m.pc as int] == CommandView::FuncCall(name),
        name != "print"@,
        !p.functions.contains_key(name),
    ensures
        step(p, m) == Transition::Fail(ErrorView::UnknownFunction(name)),
{
}

/// A jump that is taken to a label that the program does not declare
/// fails: `jz` on zero, `jp` on a positive and `jn` on a negative
/// operand.
pub proof fn law_jump_to_undeclared_label(p: ProgramView, m: Machine, label: Seq<char>, x: i64)
    requires
        m.pc < p.commands.len(),
        m.stack.len() >= 1,
        m.stack[m.stack.len() - 1] == ValueView::Int(x),
        !p.labels.contains_key(label),
        ({
            ||| p.commands[m.pc as int] == CommandView::Jz(label) && sign(x) == 0
            ||| p.commands[m.pc as int] == CommandView::Jp(label) && sign(x) == 1
            ||| p.commands[m.pc as int] == CommandView::Jn(label) && sign(x) == -1
        }),
    ensures
        step(p, m) == Transition::Fail(ErrorView::UnknownLabel(label)),
{
}

/// Unless an instruction redirects the evaluation, the program counter
/// moves on by one: only a call of a function, a return and a jump can
/// leave it anywhere else. The law speaks of programs that fit in
/// memory, as every [`crate::parser::Program`] does.
pub proof fn law_counter_moves_on_by_one(p: ProgramView, m: Machine, next: Machine)
    requires
        p.commands.len() <= usize::MAX,
        m.pc < p.commands.len(),
        step(p, m) == Transition::Next(next),
        !(p.commands[m.pc as int] is FuncCall) || p.commands[m.pc as int]
            == CommandView::FuncCall("print"@),
        !(p.commands[m.pc as int] is Ret),
        !(p.commands[m.pc as int] is Jz),
        !(p.commands[m.pc as int] is Jp),
        !(p.commands[m.pc as int] is Jn),
    ensures
        next.pc == m.pc + 1,
        next.calls == m.calls,
{
}

/// The pending result changes only where a `get` or a `pop` is
/// executed.
pub proof fn law_only_get_and_pop_set_the_result(p: ProgramView, m: Machine, next: Machine)
    requires
        m.pc < p.commands.len(),
        step(p, m) == Transition::Next(next),
        !(p.commands[m.pc as int] is GetVar),
        !(p.commands[m.pc as int] is Pop),
    ensures
        next.result == m.result,
{
}

/// A jump that is not taken goes on with the next instruction, whether
/// or not the program declares its label.
pub proof fn law_jump_not_taken_falls_through(
    p: ProgramView,
    m: Machine,
    label: Seq<char>,
    x: i64,
)
    requires
        m.pc < p.commands.len(),
        m.stack.len() >= 1,
        m.stack[m.stack.len() - 1] == ValueView::Int(x),
        ({
            ||| p.commands[m.pc as int] == CommandView::Jz(label) && sign(x) != 0
            ||| p.commands[m.pc as int] == CommandView::Jp(label) && sign(x) != 1
            ||| p.commands[m.pc as int] == CommandView::Jn(label) && sign(x) != -1
        }),
    ensures
        step(p, m) == Transition::Next(m.dropped(1).advance()),
{
}

/// `pop` on an empty operand stack fails with `EmptyStack`.
pub proof fn law_pop_on_empty_stack(p: ProgramView, m: Machine)
    requires
        m.pc < p.commands.len(),
        p.commands[m.pc as int] == CommandView::Pop,
        m.stack.len() == 0,
    ensures
        step(p, m) == Transition::Fail(ErrorView::EmptyStack),
{
}

/// `ret` without a call in progress fails with `EmptyStack`.
pub proof fn law_ret_without_call(p: ProgramView, m: Machine)
    requires
        m.pc < p.commands.len(),
        p.commands[m.pc as int] == CommandView::Ret,
        m.calls.len() == 0,
    ensures
        step(p, m) == Transition::Fail(ErrorView::EmptyStack),
{
}


/// An evaluation that comes to rest within its budget comes to rest in
/// the same state, with the same outcome, under any larger budget.
pub proof fn law_larger_budget_same_outcome(p: ProgramView, m: Machine, fuel: nat, more: nat)
    requires
        run(p, m, fuel).1 != Err::<ValueView, ErrorView>(ErrorView::StepLimit),
        fuel <= more,
    ensures
        run(p, m, more) == run(p, m, fuel),
    decreases fuel,
{
    if fuel > 0 {
        match step(p, m) {
            Transition::Next(n) => {
                law_larger_budget_same_outcome(p, n, (fuel - 1) as nat, (more - 1) as nat);
            },
            _ => {},
        }
    }
}

/// The words of a text are not empty and hold no whitespace.
pub proof fn law_words_hold_no_space(s: Seq<char>, from: int)
    requires
        0 <= from <= s.len(),
    ensures
        forall|i: int|
            0 <= i < words_from(s, from).len() ==> (#[trigger] words_from(s, from)[i]).len() > 0,
        forall|i: int, j: int|
            0 <= i < words_from(s, from).len() && 0 <= j < words_from(s, from)[i].len()
                ==> !is_space(#[trigger] words_from(s, from)[i][j]),
    decreases s.len() - from,
{
    let start = run_end(s, from, true);
    lemma_run_end(s, from, true);
    if start < s.len() {
        let stop = run_end(s, start, false);
        lemma_run_end(s, start, false);
        lemma_run_end(s, start + 1, false);
        law_words_hold_no_space(s, stop);
        let word = s.subrange(start, stop);
        let rest = words_from(s, stop);
        assert(words_from(s, from) == seq![word] + rest);
        assert forall|i: int| 0 <= i < words_from(s, from).len() implies (#[trigger] words_from(
            s,
            from,
        )[i]).len() > 0 by {
            if i > 0 {
                assert(words_from(s, from)[i] == rest[i - 1]);
            }
        }
        assert forall|i: int, j: int|
            0 <= i < words_from(s, from).len() && 0 <= j < words_from(s, from)[i].len()
            implies !is_space(#[trigger] words_from(s, from)[i][j]) by {
            if i > 0 {
                assert(words_from(s, from)[i] == rest[i - 1]);
                assert(!is_space(rest[i - 1][j]));
            } else {
                assert(word[j] == s[start + j]);
            }
        }
    }
}

/// The lines of a text hold no line feed.
pub proof fn law_lines_hold_no_line_feed(s: Seq<char>, from: int)
    requires
        0 <= from <= s.len(),
    ensures
        forall|i: int, j: int|
            0 <= i < lines_from(s, from).len() && 0 <= j < lines_from(s, from)[i].len()
                ==> #[trigger] lines_from(s, from)[i][j] != '\n',
    decreases s.len() - from,
{
    if from < s.len() {
        let stop = line_end(s, from);
        lemma_line_end(s, from);
        if stop < s.len() {
            law_lines_hold_no_line_feed(s, stop + 1);
        }
        let line = s.subrange(from, stop);
        let rest = lines_from(s, stop + 1);
        assert(lines_from(s, from) == seq![line] + rest);
        assert forall|i: int, j: int|
            0 <= i < lines_from(s, from).len() && 0 <= j < lines_from(s, from)[i].len()
            implies #[trigger] lines_from(s, from)[i][j] != '\n' by {
            if i > 0 {
                assert(lines_from(s, from)[i] == rest[i - 1]);
                assert(rest[i - 1][j] != '\n');
            } else {
                assert(line[j] == s[from + j]);
            }
        }
    }
}

/// Reading what was written gives the integer back.
pub proof fn law_written_integer_reads_back(n: i64)
    ensures
        int_literal(int_text(n as int)) == Some(n),
{
    if n < 0 {
        let digits = nat_text((-n) as nat);
        lemma_nat_text((-n) as nat);
        assert(unsigned_part(int_text(n as int)) =~= digits);
    } else {
        let digits = nat_text(n as nat);
        lemma_nat_text(n as nat);
        assert(is_digit(digits[0]));
        assert(unsigned_part(int_text(n as int)) =~= digits);
    }
}

} // verus!
