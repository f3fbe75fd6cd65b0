//! The assembler: from source text to a program.
//!
//! A source text is read line by line. The first word of a line decides
//! what the line is: a label (`name:`), a function (`func name`) or an
//! instruction. [`parse_text`] says what program a text assembles to;
//! [`Parser::parse`] computes it.

use crate::command::{
    command_result, value_result, Command, CommandView, EngineError, ErrorView, Value, ValueView,
};
use crate::text::{
    chars_of, find_line_end, int_literal, lines, lines_from, parse_decimal, split_words, str_eq,
    texts, words,
};
use vstd::hash_map::StringHashMap;
use vstd::prelude::*;

verus! {

/// What a [`Program`] denotes: its instructions in order, and where each
/// function and each label points.
pub struct ProgramView {
    pub commands: Seq<CommandView>,
    pub functions: Map<Seq<char>, usize>,
    pub labels: Map<Seq<char>, usize>,
}

impl ProgramView {
    /// The program without instructions, functions or labels.
    pub open spec fn empty() -> ProgramView {
        ProgramView { commands: Seq::empty(), functions: Map::empty(), labels: Map::empty() }
    }

    /// The index that the next instruction will have.
    pub open spec fn next_index(self) -> usize {
        self.commands.len() as usize
    }

    /// The program with `command` appended.
    pub open spec fn with_command(self, command: CommandView) -> ProgramView {
        ProgramView { commands: self.commands.push(command), ..self }
    }

    /// The program with function `name` bound to `index`.
    pub open spec fn with_function(self, name: Seq<char>, index: usize) -> ProgramView {
        ProgramView { functions: self.functions.insert(name, index), ..self }
    }

    /// The program with label `name` bound to `index`.
    pub open spec fn with_label(self, name: Seq<char>, index: usize) -> ProgramView {
        ProgramView { labels: self.labels.insert(name, index), ..self }
    }
}

/// An assembled program.
pub struct Program {
    /// The instructions, in the order of the source.
    pub commands: Vec<Command>,
    /// The index of the first instruction of each function.
    pub functions: StringHashMap<usize>,
    /// The index of the instruction that each label stands before.
    pub labels: StringHashMap<usize>,
}

impl View for Program {
    type V = ProgramView;

    open spec fn view(&self) -> ProgramView {
        ProgramView {
            commands: self.commands@.map_values(|c: Command| c@),
            functions: self.functions@,
            labels: self.labels@,
        }
    }
}

impl Default for Program {
    fn default() -> (p: Self)
        ensures
            p@ == ProgramView::empty(),
    {
        let p = Program {
            commands: Vec::new(),
            functions: StringHashMap::new(),
            labels: StringHashMap::new(),
        };
        assert(p@.commands =~= Seq::empty());
        p
    }
}

impl Program {
    /// An empty program.
    pub fn new() -> (p: Self)
        ensures
            p@ == ProgramView::empty(),
    {
        Program::default()
    }

    /// Appends an instruction.
    pub fn add_command(&mut self, command: Command)
        ensures
            final(self)@ == old(self)@.with_command(command@),
    {
        self.commands.push(command);
        assert(self@.commands =~= old(self)@.commands.push(command@));
    }

    /// Binds a function name to an instruction index; a later binding of
    /// the same name replaces an earlier one.
    pub fn define_function(&mut self, name: &str, index: usize)
        ensures
            final(self)@ == old(self)@.with_function(name@, index),
    {
        self.functions.insert(name.to_owned(), index);
    }

    /// Binds a label to an instruction index; a later binding of the
    /// same label replaces an earlier one.
    pub fn define_label(&mut self, name: &str, index: usize)
        ensures
            final(self)@ == old(self)@.with_label(name@, index),
    {
        self.labels.insert(name.to_owned(), index);
    }
}


/// A quoted string: at least two characters, the first and the last a
/// double quote.
pub open spec fn is_quoted(s: Seq<char>) -> bool {
    s.len() >= 2 && s[0] == '"' && s[s.len() - 1] == '"'
}

/// The value that a literal writes: the text between the quotes of a
/// quoted string, taken as it stands, or else an integer in base ten.
pub open spec fn literal(s: Seq<char>) -> Result<ValueView, ErrorView> {
    if is_quoted(s) {
        Ok(ValueView::Text(s.subrange(1, s.len() - 1)))
    } else {
        match int_literal(s) {
            Some(n) => Ok(ValueView::Int(n)),
            None => Err(ErrorView::MismatchType),
        }
    }
}

/// `set <name> <value>`.
pub open spec fn set_instruction(line: Seq<Seq<char>>) -> Result<CommandView, ErrorView> {
    if line.len() != 3 {
        Err(ErrorView::MismatchNumParams)
    } else {
        match literal(line[2]) {
            Ok(v) => Ok(CommandView::SetVar(line[1], v)),
            Err(e) => Err(e),
        }
    }
}

/// `get <name>`.
pub open spec fn get_instruction(line: Seq<Seq<char>>) -> Result<CommandView, ErrorView> {
    if line.len() != 2 {
        Err(ErrorView::MismatchNumParams)
    } else {
        Ok(CommandView::GetVar(line[1]))
    }
}

/// `push <value>`.
pub open spec fn push_instruction(line: Seq<Seq<char>>) -> Result<CommandView, ErrorView> {
    if line.len() != 2 {
        Err(ErrorView::MismatchNumParams)
    } else {
        match literal(line[1]) {
            Ok(v) => Ok(CommandView::Push(v)),
            Err(e) => Err(e),
        }
    }
}

/// `call <name>`.
pub open spec fn call_instruction(line: Seq<Seq<char>>) -> Result<CommandView, ErrorView> {
    if line.len() != 2 {
        Err(ErrorView::MismatchNumParams)
    } else {
        Ok(CommandView::FuncCall(line[1]))
    }
}

/// The label that a jump line names: its one argument.
pub open spec fn jump_target(line: Seq<Seq<char>>) -> Result<Seq<char>, ErrorView> {
    if line.len() != 2 {
        Err(ErrorView::MismatchNumParams)
    } else {
        Ok(line[1])
    }
}

/// An instruction that takes no argument.
pub open spec fn bare_instruction(line: Seq<Seq<char>>, command: CommandView) -> Result<
    CommandView,
    ErrorView,
> {
    if line.len() != 1 {
        Err(ErrorView::MismatchNumParams)
    } else {
        Ok(command)
    }
}

/// The instruction that the words of a line write. The first word is the
/// mnemonic; each mnemonic takes a fixed number of arguments.
pub open spec fn instruction(line: Seq<Seq<char>>) -> Result<CommandView, ErrorView>
    recommends
        line.len() > 0,
{
    let word = line[0];
    if word == "set"@ {
        set_instruction(line)
    } else if word == "get"@ {
        get_instruction(line)
    } else if word == "push"@ {
        push_instruction(line)
    } else if word == "pop"@ {
        bare_instruction(line, CommandView::Pop)
    } else if word == "add"@ {
        bare_instruction(line, CommandView::Add)
    } else if word == "sub"@ {
        bare_instruction(line, CommandView::Sub)
    } else if word == "mul"@ {
        bare_instruction(line, CommandView::Mul)
    } else if word == "div"@ {
        bare_instruction(line, CommandView::Div)
    } else if word == "cmp"@ {
        bare_instruction(line, CommandView::Cmp)
    } else if word == "call"@ {
        call_instruction(line)
    } else if word == "ret"@ {
        bare_instruction(line, CommandView::Ret)
    } else if word == "end"@ {
        bare_instruction(line, CommandView::End)
    } else if word == "jz"@ {
        match jump_target(line) {
            Ok(label) => Ok(CommandView::Jz(label)),
            Err(e) => Err(e),
        }
    } else if word == "jp"@ {
        match jump_target(line) {
            Ok(label) => Ok(CommandView::Jp(label)),
            Err(e) => Err(e),
        }
    } else if word == "jn"@ {
        match jump_target(line) {
            Ok(label) => Ok(CommandView::Jn(label)),
            Err(e) => Err(e),
        }
    } else {
        Err(ErrorView::UnknownCommand(word))
    }
}

/// A word that declares a label: it ends with a colon.
pub open spec fn is_label(word: Seq<char>) -> bool {
    word.len() > 0 && word[word.len() - 1] == ':'
}

/// The program after one more line, given as its words.
///
/// A line without words changes nothing. A label, and a function after
/// `func`, is bound to the index that the next instruction will have;
/// words after the label, or after the function's name, are ignored.
/// Any other line must write an instruction, which is appended.
pub open spec fn add_line(p: ProgramView, line: Seq<Seq<char>>) -> Result<ProgramView, ErrorView> {
    if line.len() == 0 {
        Ok(p)
    } else if is_label(line[0]) {
        Ok(p.with_label(line[0].drop_last(), p.next_index()))
    } else if line[0] == "func"@ {
        if line.len() < 2 {
            Err(ErrorView::MismatchNumParams)
        } else {
            Ok(p.with_function(line[1], p.next_index()))
        }
    } else {
        match instruction(line) {
            Ok(c) => Ok(p.with_command(c)),
            Err(e) => Err(e),
        }
    }
}

/// The program after the given lines, added in order; the first line
/// that fails ends the assembly with its error.
pub open spec fn assemble(lines: Seq<Seq<char>>, p: ProgramView) -> Result<ProgramView, ErrorView>
    decreases lines.len(),
{
    if lines.len() == 0 {
        Ok(p)
    } else {
        match add_line(p, words(lines[0])) {
            Ok(q) => assemble(lines.drop_first(), q),
            Err(e) => Err(e),
        }
    }
}

/// The program that a source text assembles to.
pub open spec fn parse_text(s: Seq<char>) -> Result<ProgramView, ErrorView> {
    assemble(lines(s), ProgramView::empty())
}

/// What the result of an assembly denotes.
pub open spec fn program_result(r: Result<Program, EngineError>) -> Result<
    ProgramView,
    ErrorView,
> {
    match r {
        Ok(p) => Ok(p@),
        Err(e) => Err(e@),
    }
}

/// The assembler.
pub struct Parser {}

impl Parser {
    pub fn new() -> Self {
        Self {  }
    }

    /// A name is taken as it stands.
    pub fn parse_var_name(&self, input: &str) -> (r: Result<String, EngineError>)
        ensures
            r matches Ok(name) && name@ == input@,
    {
        Ok(input.to_owned())
    }

    /// Reads an integer literal.
    pub fn parse_int(&self, input: &str) -> (r: Result<Value, EngineError>)
        ensures
            value_result(r) == match int_literal(input@) {
                Some(n) => Ok::<ValueView, ErrorView>(ValueView::Int(n)),
                None => Err(ErrorView::MismatchType),
            },
    {
        let chars = chars_of(input);
        match parse_decimal(&chars) {
            Some(n) => Ok(Value::Int(n)),
            None => Err(EngineError::MismatchType),
        }
    }

    /// Reads a quoted string.
    pub fn parse_string(&self, input: &str) -> (r: Result<Value, EngineError>)
        ensures
            value_result(r) == if is_quoted(input@) {
                Ok::<ValueView, ErrorView>(
                    ValueView::Text(input@.subrange(1, input@.len() - 1)),
                )
            } else {
                Err(ErrorView::MismatchType)
            },
    {
        let chars = chars_of(input);
        let n = chars.len();
        if n >= 2 && chars[0] == '"' && chars[n - 1] == '"' {
            let inner = input.substring_char(1, n - 1);
            Ok(Value::String(inner.to_owned()))
        } else {
            Err(EngineError::MismatchType)
        }
    }

    /// Reads a literal: a quoted string or an integer.
    pub fn parse_value(&self, input: &str) -> (r: Result<Value, EngineError>)
        ensures
            value_result(r) == literal(input@),
    {
        let chars = chars_of(input);
        let n = chars.len();
        if n >= 2 && chars[0] == '"' && chars[n - 1] == '"' {
            self.parse_string(input)
        } else {
            self.parse_int(input)
        }
    }

    /// Reads a `set` line from its words.
    pub fn parse_set(&self, input: &[&str]) -> (r: Result<Command, EngineError>)
        ensures
            command_result(r) == set_instruction(texts(input@)),
    {
        if input.len() != 3 {
            return Err(EngineError::MismatchNumParams);
        }
        let var_name = self.parse_var_name(input[1])?;
        let value = self.parse_value(input[2])?;

        Ok(Command::SetVar(var_name, value))
    }

    /// Reads a `get` line from its words.
    pub fn parse_get(&self, input: &[&str]) -> (r: Result<Command, EngineError>)
        ensures
            command_result(r) == get_instruction(texts(input@)),
    {
        if input.len() != 2 {
            return Err(EngineError::MismatchNumParams);
        }
        let var_name = self.parse_var_name(input[1])?;

        Ok(Command::GetVar(var_name))
    }

    /// Reads a `push` line from its words.
    pub fn parse_push(&self, input: &[&str]) -> (r: Result<Command, EngineError>)
        ensures
            command_result(r) == push_instruction(texts(input@)),
    {
        if input.len() != 2 {
            return Err(EngineError::MismatchNumParams);
        }
        let value = self.parse_value(input[1])?;

        Ok(Command::Push(value))
    }

    /// Reads a `call` line from its words.
    pub fn parse_func_call(&self, input: &[&str]) -> (r: Result<Command, EngineError>)
        ensures
            command_result(r) == call_instruction(texts(input@)),
    {
        if input.len() != 2 {
            return Err(EngineError::MismatchNumParams);
        }
        Ok(Command::FuncCall(input[1].to_owned()))
    }
}


impl Parser {
    /// Reads the label that a jump line names.
    pub fn parse_jump_target(&self, input: &[&str]) -> (r: Result<String, EngineError>)
        ensures
            match jump_target(texts(input@)) {
                Ok(label) => r matches Ok(name) && name@ == label,
                Err(e) => r matches Err(x) && x@ == e,
            },
    {
        if input.len() != 2 {
            return Err(EngineError::MismatchNumParams);
        }
        Ok(input[1].to_owned())
    }

    /// Reads a line that must consist of its mnemonic alone.
    pub fn parse_bare(&self, input: &[&str], command: Command) -> (r: Result<
        Command,
        EngineError,
    >)
        ensures
            command_result(r) == bare_instruction(texts(input@), command@),
    {
        if input.len() != 1 {
            return Err(EngineError::MismatchNumParams);
        }
        Ok(command)
    }

    /// Reads an instruction from the words of its line.
    fn parse_instruction(&self, input: &[&str]) -> (r: Result<Command, EngineError>)
        requires
            input@.len() > 0,
        ensures
            command_result(r) == instruction(texts(input@)),
    {
        let word = input[0];
        if str_eq(word, "set") {
            self.parse_set(input)
        } else if str_eq(word, "get") {
            self.parse_get(input)
        } else if str_eq(word, "push") {
            self.parse_push(input)
        } else if str_eq(word, "pop") {
            self.parse_bare(input, Command::Pop)
        } else if str_eq(word, "add") {
            self.parse_bare(input, Command::Add)
        } else if str_eq(word, "sub") {
            self.parse_bare(input, Command::Sub)
        } else if str_eq(word, "mul") {
            self.parse_bare(input, Command::Mul)
        } else if str_eq(word, "div") {
            self.parse_bare(input, Command::Div)
        } else if str_eq(word, "cmp") {
            self.parse_bare(input, Command::Cmp)
        } else if str_eq(word, "call") {
            self.parse_func_call(input)
        } else if str_eq(word, "ret") {
            self.parse_bare(input, Command::Ret)
        } else if str_eq(word, "end") {
            self.parse_bare(input, Command::End)
        } else if str_eq(word, "jz") {
            Ok(Command::Jz(self.parse_jump_target(input)?))
        } else if str_eq(word, "jp") {
            Ok(Command::Jp(self.parse_jump_target(input)?))
        } else if str_eq(word, "jn") {
            Ok(Command::Jn(self.parse_jump_target(input)?))
        } else {
            Err(EngineError::UnknownCommand(word.to_owned()))
        }
    }

    /// Adds one line, given as its words, to a program. A line that
    /// fails leaves the program as it was.
    pub fn parse_line(&self, program: &mut Program, input: &[&str]) -> (r: Result<
        (),
        EngineError,
    >)
        ensures
            match add_line(old(program)@, texts(input@)) {
                Ok(q) => r is Ok && final(program)@ == q,
                Err(e) => r matches Err(x) && x@ == e && final(program)@ == old(program)@,
            },
    {
        if input.len() == 0 {
            return Ok(());
        }
        let word = input[0];
        let chars = chars_of(word);
        let n = chars.len();
        if n > 0 && chars[n - 1] == ':' {
            let label = word.substring_char(0, n - 1);
            assert(label@ =~= word@.drop_last());
            let index = program.commands.len();
            program.define_label(label, index);
            Ok(())
        } else if str_eq(word, "func") {
            if input.len() < 2 {
                return Err(EngineError::MismatchNumParams);
            }
            let index = program.commands.len();
            program.define_function(input[1], index);
            Ok(())
        } else {
            let command = self.parse_instruction(input)?;
            program.add_command(command);
            Ok(())
        }
    }

    /// Assembles a source text.
    pub fn parse(&self, input: &str) -> (r: Result<Program, EngineError>)
        ensures
            program_result(r) == parse_text(input@),
    {
        let chars = chars_of(input);
        let n = chars.len();
        let mut program = Program::new();
        let mut from: usize = 0;
        while from < n
            invariant
                from <= n,
                n == input@.len(),
                chars@ == input@,
                assemble(lines_from(input@, from as int), program@) == parse_text(input@),
            decreases n - from,
        {
            let stop = find_line_end(&chars, from);
            let line = input.substring_char(from, stop);
            let line_words = split_words(line);
            let ghost rest = lines_from(input@, stop + 1);
            proof {
                assert(lines_from(input@, from as int) == seq![line@] + rest);
                assert((seq![line@] + rest).drop_first() =~= rest);
                if stop == n {
                    assert(rest == lines_from(input@, n as int));
                }
            }
            match self.parse_line(&mut program, line_words.as_slice()) {
                Ok(()) => {},
                Err(e) => {
                    return Err(e);
                },
            }
            from = if stop < n {
                stop + 1
            } else {
                n
            };
        }
        Ok(program)
    }
}

impl Default for Parser {
    fn default() -> Self {
        Self::new()
    }
}

} // verus!
