//! Tokens and the lexer that reads them from the bytes of a text.

use vstd::prelude::*;
use vstd::slice::slice_subrange;
use vstd::string::StringSliceAdditionalSpecFns;

verus! {

/// What a [`Token`] denotes: a number and a name carry their bytes.
#[allow(non_camel_case_types)]
pub enum TokenView {
    ASSIGN,
    PLUS,
    MINUS,
    ASTERISK,
    SLASH,
    LT,
    GT,
    LPAREN,
    RPAREN,
    LBRACE,
    RBRACE,
    SEMICOLON,
    COMMA,
    INT(Seq<u8>),
    IDENT(Seq<u8>),
    EOF,
}

/// A token of the notation.
#[allow(non_camel_case_types)]
#[derive(Debug)]
pub enum Token<'a> {
    ASSIGN,
    PLUS,
    MINUS,
    ASTERISK,
    SLASH,
    LT,
    GT,
    LPAREN,
    RPAREN,
    LBRACE,
    RBRACE,
    SEMICOLON,
    COMMA,
    /// A run of decimal digits.
    INT(&'a [u8]),
    /// A run of ASCII letters.
    IDENT(&'a [u8]),
    /// The end of the input, or a byte that starts no token.
    EOF,
}

impl<'a> View for Token<'a> {
    type V = TokenView;

    open spec fn view(&self) -> TokenView {
        match self {
            Token::ASSIGN => TokenView::ASSIGN,
            Token::PLUS => TokenView::PLUS,
            Token::MINUS => TokenView::MINUS,
            Token::ASTERISK => TokenView::ASTERISK,
            Token::SLASH => TokenView::SLASH,
            Token::LT => TokenView::LT,
            Token::GT => TokenView::GT,
            Token::LPAREN => TokenView::LPAREN,
            Token::RPAREN => TokenView::RPAREN,
            Token::LBRACE => TokenView::LBRACE,
            Token::RBRACE => TokenView::RBRACE,
            Token::SEMICOLON => TokenView::SEMICOLON,
            Token::COMMA => TokenView::COMMA,
            Token::INT(digits) => TokenView::INT(digits@),
            Token::IDENT(letters) => TokenView::IDENT(letters@),
            Token::EOF => TokenView::EOF,
        }
    }
}

/// Whether two slices hold the same bytes.
pub fn bytes_eq(a: &[u8], b: &[u8]) -> (same: bool)
    ensures
        same == (a@ == b@),
{
    if a.len() != b.len() {
        return false;
    }
    let n = a.len();
    let mut i: usize = 0;
    while i < n
        invariant
            i <= n,
            n == a@.len(),
            n == b@.len(),
            a@.take(i as int) == b@.take(i as int),
        decreases n - i,
    {
        if a[i] != b[i] {
            assert(a@[i as int] != b@[i as int]);
            return false;
        }
        assert(a@.take(i + 1) =~= a@.take(i as int).push(a@[i as int]));
        assert(b@.take(i + 1) =~= b@.take(i as int).push(b@[i as int]));
        i = i + 1;
    }
    assert(a@.take(n as int) =~= a@);
    assert(b@.take(n as int) =~= b@);
    true
}

impl<'a> PartialEq for Token<'a> {
    fn eq(&self, other: &Self) -> (same: bool) {
        match self {
            Token::ASSIGN => matches!(other, Token::ASSIGN),
            Token::PLUS => matches!(other, Token::PLUS),
            Token::MINUS => matches!(other, Token::MINUS),
            Token::ASTERISK => matches!(other, Token::ASTERISK),
            Token::SLASH => matches!(other, Token::SLASH),
            Token::LT => matches!(other, Token::LT),
            Token::GT => matches!(other, Token::GT),
            Token::LPAREN => matches!(other, Token::LPAREN),
            Token::RPAREN => matches!(other, Token::RPAREN),
            Token::LBRACE => matches!(other, Token::LBRACE),
            Token::RBRACE => matches!(other, Token::RBRACE),
            Token::SEMICOLON => matches!(other, Token::SEMICOLON),
            Token::COMMA => matches!(other, Token::COMMA),
            Token::INT(a) => match other {
                Token::INT(b) => bytes_eq(a, b),
                _ => false,
            },
            Token::IDENT(a) => match other {
                Token::IDENT(b) => bytes_eq(a, b),
                _ => false,
            },
            Token::EOF => matches!(other, Token::EOF),
        }
    }
}

impl<'a> vstd::std_specs::cmp::PartialEqSpecImpl for Token<'a> {
    open spec fn obeys_eq_spec() -> bool {
        true
    }

    open spec fn eq_spec(&self, other: &Self) -> bool {
        self@ == other@
    }
}


/// The kinds of byte that make up runs.
pub enum Class {
    /// ASCII whitespace: space, tab, line feed, form feed, carriage
    /// return.
    Blank,
    /// The decimal digits.
    Digit,
    /// The ASCII letters of either case.
    Letter,
}

/// Whether a byte is of a class.
pub open spec fn in_class(b: u8, class: Class) -> bool {
    match class {
        Class::Blank => b == 32 || b == 9 || b == 10 || b == 12 || b == 13,
        Class::Digit => 48 <= b <= 57,
        Class::Letter => (65 <= b <= 90) || (97 <= b <= 122),
    }
}

/// The byte at `pos`, and zero past the end of the input.
pub open spec fn byte_at(s: Seq<u8>, pos: int) -> u8 {
    if 0 <= pos < s.len() {
        s[pos]
    } else {
        0
    }
}

/// Where the run of bytes of `class` that starts at `from` ends.
pub open spec fn span_end(s: Seq<u8>, from: int, class: Class) -> int
    decreases s.len() - from,
{
    if 0 <= from < s.len() && in_class(s[from], class) {
        span_end(s, from + 1, class)
    } else {
        from
    }
}

/// A run ends at or after its start and within the input.
pub proof fn lemma_span_end(s: Seq<u8>, from: int, class: Class)
    requires
        0 <= from <= s.len(),
    ensures
        from <= span_end(s, from, class) <= s.len(),
        from < s.len() && in_class(s[from], class) ==> from < span_end(s, from, class),
    decreases s.len() - from,
{
    if from < s.len() && in_class(s[from], class) {
        lemma_span_end(s, from + 1, class);
    }
}

/// The token that a single byte writes, if it writes one.
pub open spec fn symbol(b: u8) -> Option<TokenView> {
    if b == 61 {
        Some(TokenView::ASSIGN)
    } else if b == 43 {
        Some(TokenView::PLUS)
    } else if b == 45 {
        Some(TokenView::MINUS)
    } else if b == 47 {
        Some(TokenView::SLASH)
    } else if b == 42 {
        Some(TokenView::ASTERISK)
    } else if b == 60 {
        Some(TokenView::LT)
    } else if b == 62 {
        Some(TokenView::GT)
    } else if b == 40 {
        Some(TokenView::LPAREN)
    } else if b == 41 {
        Some(TokenView::RPAREN)
    } else if b == 123 {
        Some(TokenView::LBRACE)
    } else if b == 125 {
        Some(TokenView::RBRACE)
    } else if b == 59 {
        Some(TokenView::SEMICOLON)
    } else if b == 44 {
        Some(TokenView::COMMA)
    } else {
        None
    }
}

/// The token that starts at or after `pos`, whitespace skipped, and the
/// position after it. At the end of the input, and before a byte that
/// starts no token, the token is `EOF` and the position stays there.
pub open spec fn scan(s: Seq<u8>, pos: int) -> (TokenView, int) {
    let start = span_end(s, pos, Class::Blank);
    let b = byte_at(s, start);
    match symbol(b) {
        Some(token) => (token, start + 1),
        None => if in_class(b, Class::Digit) {
            let stop = span_end(s, start, Class::Digit);
            (TokenView::INT(s.subrange(start, stop)), stop)
        } else if in_class(b, Class::Letter) {
            let stop = span_end(s, start, Class::Letter);
            (TokenView::IDENT(s.subrange(start, stop)), stop)
        } else {
            (TokenView::EOF, start)
        },
    }
}

/// The tokens from `pos` on, up to the first `EOF`, which is left out.
pub open spec fn tokens_from(s: Seq<u8>, pos: int) -> Seq<TokenView>
    decreases s.len() - pos,
    via tokens_from_decreases
{
    let (token, next) = scan(s, pos);
    if 0 <= pos <= s.len() && !(token is EOF) {
        seq![token] + tokens_from(s, next)
    } else {
        Seq::empty()
    }
}

#[via_fn]
proof fn tokens_from_decreases(s: Seq<u8>, pos: int) {
    if 0 <= pos <= s.len() {
        lemma_scan_advances(s, pos);
    }
}

/// A token other than `EOF` ends after the position it was looked for
/// at, and within the input.
pub proof fn lemma_scan_advances(s: Seq<u8>, pos: int)
    requires
        0 <= pos <= s.len(),
    ensures
        pos <= scan(s, pos).1 <= s.len(),
        !(scan(s, pos).0 is EOF) ==> pos < scan(s, pos).1,
{
    let start = span_end(s, pos, Class::Blank);
    lemma_span_end(s, pos, Class::Blank);
    lemma_span_end(s, start, Class::Digit);
    lemma_span_end(s, start, Class::Letter);
}

/// What a [`Lexer`] denotes: the bytes it reads and how far it has come.
pub struct LexerView {
    pub input: Seq<u8>,
    pub pos: int,
}

/// A lexer over the bytes of a text.
#[derive(Debug)]
pub struct Lexer<'a> {
    input: &'a [u8],
    pos: usize,
}

impl<'a> View for Lexer<'a> {
    type V = LexerView;

    closed spec fn view(&self) -> LexerView {
        LexerView { input: self.input@, pos: self.pos as int }
    }
}

impl<'a> Lexer<'a> {
    /// The cursor never leaves the input.
    #[verifier::type_invariant]
    spec fn within_input(self) -> bool {
        self.pos <= self.input@.len()
    }

    /// A lexer at the start of `input`.
    pub fn new(input: &'a str) -> (lexer: Self)
        ensures
            lexer@ == (LexerView { input: input.spec_bytes(), pos: 0 }),
    {
        Self { input: input.as_bytes(), pos: 0 }
    }

    /// The byte under the cursor, and zero at the end of the input.
    fn ch(&self) -> (b: u8)
        ensures
            b == byte_at(self@.input, self@.pos),
    {
        if self.pos < self.input.len() {
            self.input[self.pos]
        } else {
            0
        }
    }

    /// Moves the cursor one byte on, unless it is at the end.
    fn read_char(&mut self)
        ensures
            final(self)@.input == old(self)@.input,
            final(self)@.pos == if old(self)@.pos < old(self)@.input.len() {
                old(self)@.pos + 1
            } else {
                old(self)@.pos
            },
    {
        if self.pos < self.input.len() {
            self.pos = self.pos + 1;
        }
    }

    fn is_letter(&self) -> (b: bool)
        ensures
            b == in_class(byte_at(self@.input, self@.pos), Class::Letter),
    {
        let c = self.ch();
        (c >= 65 && c <= 90) || (c >= 97 && c <= 122)
    }

    fn is_digit(&self) -> (b: bool)
        ensures
            b == in_class(byte_at(self@.input, self@.pos), Class::Digit),
    {
        let c = self.ch();
        c >= 48 && c <= 57
    }

    fn is_whitespace(&self) -> (b: bool)
        ensures
            b == in_class(byte_at(self@.input, self@.pos), Class::Blank),
    {
        let c = self.ch();
        c == 32 || c == 9 || c == 10 || c == 12 || c == 13
    }

    /// Moves the cursor past the whitespace it stands in.
    fn skip_whitespace(&mut self)
        ensures
            final(self)@.input == old(self)@.input,
            final(self)@.pos == span_end(old(self)@.input, old(self)@.pos, Class::Blank),
    {
        while self.is_whitespace()
            invariant
                self@.input == old(self)@.input,
                span_end(self@.input, self@.pos, Class::Blank) == span_end(
                    old(self)@.input,
                    old(self)@.pos,
                    Class::Blank,
                ),
            decreases self@.input.len() - self@.pos,
        {
            self.read_char();
        }
    }

    /// Reads the run of digits under the cursor.
    fn read_number(&mut self) -> (digits: &'a [u8])
        ensures
            final(self)@.input == old(self)@.input,
            final(self)@.pos == span_end(old(self)@.input, old(self)@.pos, Class::Digit),
            digits@ == old(self)@.input.subrange(old(self)@.pos, final(self)@.pos),
    {
        let start = self.pos;
        while self.is_digit()
            invariant
                self@.input == old(self)@.input,
                start == old(self)@.pos,
                start <= self@.pos,
                span_end(self@.input, self@.pos, Class::Digit) == span_end(
                    old(self)@.input,
                    old(self)@.pos,
                    Class::Digit,
                ),
            decreases self@.input.len() - self@.pos,
        {
            self.read_char();
        }
        proof {
            use_type_invariant(&*self);
        }
        let input: &'a [u8] = self.input;
        slice_subrange(input, start, self.pos)
    }

    /// Reads the run of letters under the cursor.
    fn read_identifier(&mut self) -> (letters: &'a [u8])
        ensures
            final(self)@.input == old(self)@.input,
            final(self)@.pos == span_end(old(self)@.input, old(self)@.pos, Class::Letter),
            letters@ == old(self)@.input.subrange(old(self)@.pos, final(self)@.pos),
    {
        let start = self.pos;
        while self.is_letter()
            invariant
                self@.input == old(self)@.input,
                start == old(self)@.pos,
                start <= self@.pos,
                span_end(self@.input, self@.pos, Class::Letter) == span_end(
                    old(self)@.input,
                    old(self)@.pos,
                    Class::Letter,
                ),
            decreases self@.input.len() - self@.pos,
        {
            self.read_char();
        }
        proof {
            use_type_invariant(&*self);
        }
        let input: &'a [u8] = self.input;
        slice_subrange(input, start, self.pos)
    }
}


impl<'a> Lexer<'a> {
    /// Reads the next token.
    pub fn next_token(&mut self) -> (token: Token<'a>)
        ensures
            final(self)@.input == old(self)@.input,
            (token@, final(self)@.pos) == scan(old(self)@.input, old(self)@.pos),
    {
        self.skip_whitespace();
        let c = self.ch();
        let token = if c == 61 {
            Token::ASSIGN
        } else if c == 43 {
            Token::PLUS
        } else if c == 45 {
            Token::MINUS
        } else if c == 47 {
            Token::SLASH
        } else if c == 42 {
            Token::ASTERISK
        } else if c == 60 {
            Token::LT
        } else if c == 62 {
            Token::GT
        } else if c == 40 {
            Token::LPAREN
        } else if c == 41 {
            Token::RPAREN
        } else if c == 123 {
            Token::LBRACE
        } else if c == 125 {
            Token::RBRACE
        } else if c == 59 {
            Token::SEMICOLON
        } else if c == 44 {
            Token::COMMA
        } else {
            if self.is_digit() {
                return Token::INT(self.read_number());
            }
            if self.is_letter() {
                return Token::IDENT(self.read_identifier());
            }
            return Token::EOF;
        };

        self.read_char();

        token
    }

    /// Reads the next token, if the input holds one more.
    pub fn next(&mut self) -> (token: Option<Token<'a>>)
        ensures
            final(self)@.input == old(self)@.input,
            final(self)@.pos == scan(old(self)@.input, old(self)@.pos).1,
            match token {
                Some(t) => t@ == scan(old(self)@.input, old(self)@.pos).0 && !(t@ is EOF),
                None => scan(old(self)@.input, old(self)@.pos).0 is EOF,
            },
    {
        let token = self.next_token();
        match token {
            Token::EOF => None,
            _ => Some(token),
        }
    }

    /// Reads the tokens that are left, up to the end of the input or to
    /// the first byte that starts no token.
    pub fn remaining(&mut self) -> (tokens: Vec<Token<'a>>)
        ensures
            final(self)@.input == old(self)@.input,
            token_views(tokens@) == tokens_from(old(self)@.input, old(self)@.pos),
    {
        let mut tokens: Vec<Token<'a>> = Vec::new();
        proof {
            use_type_invariant(&*self);
            assert(token_views(tokens@) + tokens_from(self@.input, self@.pos) =~= tokens_from(
                self@.input,
                self@.pos,
            ));
        }
        loop
            invariant
                self@.input == old(self)@.input,
                0 <= self@.pos <= self@.input.len(),
                token_views(tokens@) + tokens_from(self@.input, self@.pos) == tokens_from(
                    old(self)@.input,
                    old(self)@.pos,
                ),
            decreases self@.input.len() - self@.pos,
        {
            let ghost before = self@.pos;
            let ghost done = token_views(tokens@);
            proof {
                lemma_scan_advances(self@.input, before);
            }
            match self.next() {
                Some(token) => {
                    tokens.push(token);
                    proof {
                        let rest = tokens_from(self@.input, self@.pos);
                        assert(token_views(tokens@) =~= done.push(token@));
                        assert(done.push(token@) + rest =~= done + (seq![token@] + rest));
                    }
                },
                None => {
                    assert(done + Seq::<TokenView>::empty() =~= done);
                    return tokens;
                },
            }
        }
    }
}

/// What a list of tokens denotes.
pub open spec fn token_views(tokens: Seq<Token<'_>>) -> Seq<TokenView> {
    tokens.map_values(|t: Token<'_>| t@)
}

} // verus!
