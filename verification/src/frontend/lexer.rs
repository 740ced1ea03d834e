//! The lexer: turns source text into a sequence of classified lexemes with
//! 1-based line numbers, collecting every lexing error in one pass instead
//! of stopping at the first.
//!
//! The spec functions beginning with `ws_end`, `scan_`, `lex_` are the
//! mathematical model: `lex` returns exactly what `lex_model` describes.

use vstd::prelude::*;

use crate::text::{
    char_is_alpha, char_is_alphanum, char_is_ascii_digit, char_is_space, is_alpha_char,
    is_alphanum_char, is_space_char, push_char,
};
use crate::values::is_digit_char;
use vstd::string::StrSliceExecFns;
use vstd::utf8::encode_utf8;

verus! {

#[derive(Debug, Clone, Copy, PartialEq, Eq, Structural)]
pub enum LexemeType {
    Identifier,
    Numeric,  // Coerce all numbers to doubles
    OpenParen,
    CloseParen,
    Plus,
    Minus,
    Star,
    DoubleStar,
    Slash,
    Equals,
    // Special lexeme that all inputs are terminated by
    EOF,
}

#[derive(Debug, Clone, PartialEq)]
pub struct Lexeme {
    pub lexeme_type: LexemeType,
    pub line: usize,
    pub text: String,
}

/// What a lexeme is mathematically: its kind, its 1-based source line and
/// its text.
pub ghost struct LexemeModel {
    pub kind: LexemeType,
    pub line: nat,
    pub text: Seq<char>,
}

impl View for Lexeme {
    type V = LexemeModel;

    open spec fn view(&self) -> LexemeModel {
        LexemeModel { kind: self.lexeme_type, line: self.line as nat, text: self.text@ }
    }
}

impl Lexeme {
    pub fn new(lexeme_type: LexemeType, line: usize, text: String) -> (r: Lexeme)
        ensures
            r@ == (LexemeModel { kind: lexeme_type, line: line as nat, text: text@ }),
    {
        Lexeme { lexeme_type, line, text }
    }
}

/// A lexing result seen at the model level.
pub open spec fn lexres_model(r: Result<Lexeme, String>) -> Result<LexemeModel, Seq<char>> {
    match r {
        Ok(l) => Ok(l@),
        Err(e) => Err(e@),
    }
}

/// The index of the first non-whitespace character at or after `i`.
pub open spec fn ws_end(data: Seq<char>, i: int) -> int
    decreases data.len() - i,
{
    if i < data.len() && is_space_char(data[i]) {
        ws_end(data, i + 1)
    } else {
        i
    }
}

/// The line counter after skipping whitespace from `i`, counting newlines.
pub open spec fn line_after_ws(data: Seq<char>, i: int, line: nat) -> nat
    decreases data.len() - i,
{
    if i < data.len() && is_space_char(data[i]) {
        line_after_ws(
            data,
            i + 1,
            if data[i] == '\n' {
                line + 1
            } else {
                line
            },
        )
    } else {
        line
    }
}

/// The index of the first non-digit character at or after `i`.
pub open spec fn scan_digits(data: Seq<char>, i: int) -> int
    decreases data.len() - i,
{
    if i < data.len() && is_digit_char(data[i]) {
        scan_digits(data, i + 1)
    } else {
        i
    }
}

/// The index of the first character at or after `i` that cannot continue an
/// identifier (alphanumeric or underscore).
pub open spec fn scan_ident(data: Seq<char>, i: int) -> int
    decreases data.len() - i,
{
    if i < data.len() && (is_alphanum_char(data[i]) || data[i] == '_') {
        scan_ident(data, i + 1)
    } else {
        i
    }
}

/// Lexing a numeric literal whose first character `start` has already been
/// consumed: the integer digits, then optionally a decimal point that must
/// be followed by at least one digit. Returns the lexeme or the error, and
/// the index after the literal.
pub open spec fn lex_number_model(data: Seq<char>, i: int, start: char, line: nat) -> (Result<
    LexemeModel,
    Seq<char>,
>, int) {
    let d1 = scan_digits(data, i);
    let text1 = seq![start] + data.subrange(i, d1);
    if !(d1 < data.len() && data[d1] == '.') {
        (Ok(LexemeModel { kind: LexemeType::Numeric, line, text: text1 }), d1)
    } else {
        if !(d1 + 1 < data.len() && is_digit_char(data[d1 + 1])) {
            (Err("Unterminated float.\n"@), d1 + 1)
        } else {
            let d2 = scan_digits(data, d1 + 1);
            let text2 = text1.push('.') + data.subrange(d1 + 1, d2);
            (Ok(LexemeModel { kind: LexemeType::Numeric, line, text: text2 }), d2)
        }
    }
}

/// Lexing an identifier whose first character `start` has already been
/// consumed: alphanumerics and underscores follow, and a name longer than
/// 255 bytes is an error.
pub open spec fn lex_identifier_model(data: Seq<char>, i: int, start: char, line: nat) -> (Result<
    LexemeModel,
    Seq<char>,
>, int) {
    let e = scan_ident(data, i);
    let text = seq![start] + data.subrange(i, e);
    if encode_utf8(text).len() > 255 {
        (Err("Name out of bounds!"@), e)
    } else {
        (Ok(LexemeModel { kind: LexemeType::Identifier, line, text }), e)
    }
}

/// One step of the lexer: skip whitespace (counting lines), then produce
/// the next lexeme or error. Returns the result, the index after it, and
/// the updated line counter.
pub open spec fn lex_next_model(data: Seq<char>, i: int, line: nat) -> (Result<
    LexemeModel,
    Seq<char>,
>, int, nat) {
    let w = ws_end(data, i);
    let l2 = line_after_ws(data, i, line);
    if !(w < data.len()) {
        (Ok(LexemeModel { kind: LexemeType::EOF, line: l2, text: "end of file"@ }), w, l2)
    } else {
        let c = data[w];
        let p = w + 1;
        if c == '(' {
            (Ok(LexemeModel { kind: LexemeType::OpenParen, line: l2, text: "("@ }), p, l2)
        } else if c == ')' {
            (Ok(LexemeModel { kind: LexemeType::CloseParen, line: l2, text: ")"@ }), p, l2)
        } else if c == '*' {
            if p < data.len() && data[p] == '*' {
                (Ok(LexemeModel { kind: LexemeType::DoubleStar, line: l2, text: "**"@ }), p + 1, l2)
            } else {
                (Ok(LexemeModel { kind: LexemeType::Star, line: l2, text: "*"@ }), p, l2)
            }
        } else if c == '/' {
            (Ok(LexemeModel { kind: LexemeType::Slash, line: l2, text: "/"@ }), p, l2)
        } else if c == '+' {
            (Ok(LexemeModel { kind: LexemeType::Plus, line: l2, text: "+"@ }), p, l2)
        } else if c == '-' {
            // A minus directly followed by a digit starts a negative number.
            if p < data.len() && is_digit_char(data[p]) {
                let (r, n) = lex_number_model(data, p, c, l2);
                (r, n, l2)
            } else {
                (Ok(LexemeModel { kind: LexemeType::Minus, line: l2, text: "-"@ }), p, l2)
            }
        } else if c == '=' {
            (Ok(LexemeModel { kind: LexemeType::Equals, line: l2, text: "="@ }), p, l2)
        } else if is_digit_char(c) {
            let (r, n) = lex_number_model(data, p, c, l2);
            (r, n, l2)
        } else if is_alpha_char(c) {
            let (r, n) = lex_identifier_model(data, p, c, l2);
            (r, n, l2)
        } else {
            // The message shows the character under the cursor after the
            // offending one was consumed; at end of input the offending
            // character itself is shown.
            let mc = if p < data.len() {
                data[p]
            } else {
                c
            };
            (Err("Unexpected character: '"@ + seq![mc] + "'.\n"@), p, l2)
        }
    }
}

/// Everything the lexer produces: the lexeme sequence (terminated by one
/// end-of-input lexeme) and the concatenation of all error messages.
pub ghost struct LexOut {
    pub lexemes: Seq<LexemeModel>,
    pub errors: Seq<char>,
}

/// The whole lexer run from index `i`: lexemes accumulate, errors
/// concatenate, and one end-of-input lexeme closes the sequence.
pub open spec fn lex_from(data: Seq<char>, i: int, line: nat) -> LexOut
    decreases data.len() - i,
{
    let (res, n, l2) = lex_next_model(data, i, line);
    let n2 = if n < i + 1 {
        i + 1
    } else if n > data.len() {
        data.len() as int
    } else {
        n
    };
    match res {
        Ok(lx) => {
            if lx.kind == LexemeType::EOF {
                LexOut { lexemes: seq![lx], errors: Seq::empty() }
            } else {
                let rest = lex_from(data, n2, l2);
                LexOut { lexemes: seq![lx] + rest.lexemes, errors: rest.errors }
            }
        },
        Err(m) => {
            let rest = lex_from(data, n2, l2);
            LexOut { lexemes: rest.lexemes, errors: m + rest.errors }
        },
    }
}

/// What lexing a source text yields.
pub open spec fn lex_model(source: Seq<char>) -> LexOut {
    lex_from(source, 0, 1)
}

struct Lexer {
    data: Vec<char>,
    index: usize,
    lexemes: Vec<Lexeme>,
    errors: String,
    line: usize,
}

impl Lexer {
    spec fn wf(self) -> bool {
        &&& self.index <= self.data@.len()
        &&& 1 <= self.line
        &&& self.line <= self.index + 1
        &&& self.data@.len() < usize::MAX
    }

    fn in_bounds(&self) -> (r: bool)
        ensures
            r == (self.index < self.data@.len()),
    {
        self.index < self.data.len()
    }

    // Get the current character
    fn current(&self) -> (c: char)
        requires
            self.index < self.data@.len(),
        ensures
            c == self.data@[self.index as int],
    {
        self.data[self.index]
    }

    // Advance to the next character.
    // Return the character that was previously under the cursor
    fn next(&mut self) -> (c: char)
        requires
            old(self).index < old(self).data@.len(),
            old(self).data@.len() < usize::MAX,
        ensures
            c == old(self).data@[old(self).index as int],
            *final(self) == (Lexer { index: (old(self).index + 1) as usize, ..*old(self) }),
    {
        let ret_val = self.current();
        self.index = self.index + 1;
        ret_val
    }

    // Skip the next character
    fn skip(&mut self)
        requires
            old(self).index < old(self).data@.len(),
            old(self).data@.len() < usize::MAX,
        ensures
            *final(self) == (Lexer { index: (old(self).index + 1) as usize, ..*old(self) }),
    {
        self.index = self.index + 1;
    }
}

impl Lexer {
    // Lex a numeric literal, starting with character `start`.
    // All numbers are read as doubles.
    #[verifier::loop_isolation(false)]
    fn lex_number(&mut self, start: char) -> (r: Result<Lexeme, String>)
        requires
            old(self).wf(),
            is_digit_char(start) || start == '-',
        ensures
            final(self).wf(),
            final(self).data == old(self).data,
            final(self).lexemes == old(self).lexemes,
            final(self).errors == old(self).errors,
            final(self).line == old(self).line,
            final(self).index >= old(self).index,
            ({
                let (res, n) = lex_number_model(
                    old(self).data@,
                    old(self).index as int,
                    start,
                    old(self).line as nat,
                );
                lexres_model(r) == res && final(self).index == n
            }),
    {
        let ghost data = self.data@;
        let ghost i0 = self.index as int;

        // Collect all the characters used to build this number.
        let mut chars = String::new();
        push_char(&mut chars, start);

        proof {
            assert(chars@ =~= seq![start] + data.subrange(i0, i0));
        }
        // Push all the digits until we encounter a non-digit character.
        while self.in_bounds() && char_is_ascii_digit(self.current())
            invariant
                self.wf(),
                self.data == old(self).data,
                i0 <= self.index,
                self.lexemes == old(self).lexemes,
                self.errors == old(self).errors,
                self.line == old(self).line,
                chars@ == seq![start] + data.subrange(i0, self.index as int),
                scan_digits(data, i0) == scan_digits(data, self.index as int),
            decreases data.len() - self.index,
        {
            let ghost iprev = self.index as int;
            let c = self.next();
            push_char(&mut chars, c);
            proof {
                assert(data.subrange(i0, iprev + 1) =~= data.subrange(i0, iprev).push(data[iprev]));
                assert(chars@ =~= seq![start] + data.subrange(i0, self.index as int));
            }
        }
        proof {
            assert(scan_digits(data, self.index as int) == self.index as int);
        }

        // If the next character isn't a decimal point, we've got an integer.
        if !self.in_bounds() || self.current() != '.' {
            return Ok(Lexeme::new(LexemeType::Numeric, self.line, chars));
        }
        // Otherwise, treat it as a decimal number.
        let ghost d1 = self.index as int;
        let c = self.next();
        push_char(&mut chars, c);

        // A decimal point must be followed by at least one digit.
        if !self.in_bounds() || !char_is_ascii_digit(self.current()) {
            return Err(String::from_str("Unterminated float.\n"));
        }

        let ghost j0 = self.index as int;
        proof {
            assert(chars@ =~= seq![start] + data.subrange(i0, d1) + seq!['.'] + data.subrange(
                j0,
                j0,
            ));
        }
        while self.in_bounds() && char_is_ascii_digit(self.current())
            invariant
                self.wf(),
                self.data == old(self).data,
                j0 <= self.index,
                self.lexemes == old(self).lexemes,
                self.errors == old(self).errors,
                self.line == old(self).line,
                chars@ == seq![start] + data.subrange(i0, d1) + seq!['.'] + data.subrange(
                    j0,
                    self.index as int,
                ),
                scan_digits(data, j0) == scan_digits(data, self.index as int),
            decreases data.len() - self.index,
        {
            let ghost iprev = self.index as int;
            let c = self.next();
            push_char(&mut chars, c);
            proof {
                assert(data.subrange(j0, iprev + 1) =~= data.subrange(j0, iprev).push(data[iprev]));
                assert(chars@ =~= seq![start] + data.subrange(i0, d1) + seq!['.'] + data.subrange(
                    j0,
                    self.index as int,
                ));
            }
        }
        proof {
            assert(scan_digits(data, self.index as int) == self.index as int);
            let (res, n) = lex_number_model(data, i0, start, old(self).line as nat);
            assert(chars@ =~= (seq![start] + data.subrange(i0, d1)).push('.') + data.subrange(
                j0,
                self.index as int,
            ));
        }
        Ok(Lexeme::new(LexemeType::Numeric, self.line, chars))
    }

    // Whether the current character may continue an identifier.
    fn at_ident_char(&self) -> (r: bool)
        requires
            self.index < self.data@.len(),
        ensures
            r == (is_alphanum_char(self.data@[self.index as int]) || self.data@[self.index as int]
                == '_'),
    {
        let c = self.current();
        char_is_alphanum(c) || c == '_'
    }

    // Lex a generic identifier.
    #[verifier::loop_isolation(false)]
    fn lex_identifier(&mut self, start: char) -> (r: Result<Lexeme, String>)
        requires
            old(self).wf(),
            is_alpha_char(start),
        ensures
            final(self).wf(),
            final(self).data == old(self).data,
            final(self).lexemes == old(self).lexemes,
            final(self).errors == old(self).errors,
            final(self).line == old(self).line,
            final(self).index >= old(self).index,
            ({
                let (res, n) = lex_identifier_model(
                    old(self).data@,
                    old(self).index as int,
                    start,
                    old(self).line as nat,
                );
                lexres_model(r) == res && final(self).index == n
            }),
    {
        let ghost data = self.data@;
        let ghost i0 = self.index as int;

        // Identifiers start with an alphabetic character, then may have any
        // number of alphanumeric characters or underscores.
        let mut chars = String::new();
        push_char(&mut chars, start);

        proof {
            assert(chars@ =~= seq![start] + data.subrange(i0, i0));
        }
        while self.in_bounds() && self.at_ident_char()
            invariant
                self.wf(),
                self.data == old(self).data,
                i0 <= self.index,
                self.lexemes == old(self).lexemes,
                self.errors == old(self).errors,
                self.line == old(self).line,
                chars@ == seq![start] + data.subrange(i0, self.index as int),
                scan_ident(data, i0) == scan_ident(data, self.index as int),
                encode_utf8(chars@).len() <= usize::MAX,
            decreases data.len() - self.index,
        {
            let ghost iprev = self.index as int;
            let c = self.next();
            push_char(&mut chars, c);
            proof {
                assert(data.subrange(i0, iprev + 1) =~= data.subrange(i0, iprev).push(data[iprev]));
                assert(chars@ =~= seq![start] + data.subrange(i0, self.index as int));
            }
        }
        proof {
            assert(scan_ident(data, self.index as int) == self.index as int);
        }

        if chars.as_str().len() > 255 {
            Err(String::from_str("Name out of bounds!"))
        } else {
            // This is the named identifier.
            Ok(Lexeme::new(LexemeType::Identifier, self.line, chars))
        }
    }

    #[verifier::loop_isolation(false)]
    fn lex_next(&mut self) -> (r: Result<Lexeme, String>)
        requires
            old(self).wf(),
        ensures
            final(self).wf(),
            final(self).data == old(self).data,
            final(self).lexemes == old(self).lexemes,
            final(self).errors == old(self).errors,
            final(self).index >= old(self).index,
            ({
                let (res, n, l2) = lex_next_model(
                    old(self).data@,
                    old(self).index as int,
                    old(self).line as nat,
                );
                &&& lexres_model(r) == res
                &&& final(self).index == n
                &&& final(self).line == l2
                &&& (!(r matches Ok(lx) && lx@.kind == LexemeType::EOF) ==> final(self).index
                    > old(self).index)
            }),
    {
        let ghost data = self.data@;
        let ghost i0 = self.index as int;
        let ghost line0 = self.line as nat;

        // At the start of each lexeme, skip all whitespace, tracking lines.
        while self.in_bounds() && char_is_space(self.current())
            invariant
                self.wf(),
                self.data == old(self).data,
                i0 <= self.index,
                self.lexemes == old(self).lexemes,
                self.errors == old(self).errors,
                ws_end(data, i0) == ws_end(data, self.index as int),
                line_after_ws(data, i0, line0) == line_after_ws(
                    data,
                    self.index as int,
                    self.line as nat,
                ),
            decreases data.len() - self.index,
        {
            // Track lines in source code.
            if self.current() == '\n' {
                self.line = self.line + 1;
            }
            self.skip();
        }
        proof {
            assert(ws_end(data, self.index as int) == self.index as int);
            assert(line_after_ws(data, self.index as int, self.line as nat) == self.line as nat);
        }

        // If after skipping whitespace we are out of bounds, return EOF.
        if !self.in_bounds() {
            return Ok(Lexeme::new(LexemeType::EOF, self.line, String::from_str("end of file")));
        }
        // Otherwise, another non-whitespace character remains to be lexed.
        let start = self.next();
        match start {
            '(' => Ok(Lexeme::new(LexemeType::OpenParen, self.line, String::from_str("("))),
            ')' => Ok(Lexeme::new(LexemeType::CloseParen, self.line, String::from_str(")"))),
            '*' => {
                if self.in_bounds() && self.current() == '*' {
                    self.skip();
                    Ok(Lexeme::new(LexemeType::DoubleStar, self.line, String::from_str("**")))
                } else {
                    Ok(Lexeme::new(LexemeType::Star, self.line, String::from_str("*")))
                }
            },
            '/' => Ok(Lexeme::new(LexemeType::Slash, self.line, String::from_str("/"))),
            '+' => Ok(Lexeme::new(LexemeType::Plus, self.line, String::from_str("+"))),
            // A minus can also be the start of a negative number.
            '-' => {
                if self.in_bounds() && char_is_ascii_digit(self.current()) {
                    self.lex_number(start)
                } else {
                    Ok(Lexeme::new(LexemeType::Minus, self.line, String::from_str("-")))
                }
            },
            '=' => Ok(Lexeme::new(LexemeType::Equals, self.line, String::from_str("="))),
            _ => {
                if char_is_ascii_digit(start) {
                    self.lex_number(start)
                } else if char_is_alpha(start) {
                    self.lex_identifier(start)
                } else {
                    // The reported character sits under the cursor after the
                    // offending one was consumed, or is the offending one
                    // itself at end of input.
                    let mc = if self.in_bounds() {
                        self.current()
                    } else {
                        start
                    };
                    let mut msg = String::from_str("Unexpected character: '");
                    push_char(&mut msg, mc);
                    msg.append("'.\n");
                    proof {
                        let (res, n, l2) = lex_next_model(data, i0, line0);
                        assert(res matches Err(m) && m =~= msg@);
                    }
                    Err(msg)
                }
            },
        }
    }

    // Lex all lexemes in self's data.
    #[verifier::loop_isolation(false)]
    fn lex(&mut self)
        requires
            old(self).wf(),
            old(self).lexemes@.len() == 0,
            old(self).errors@.len() == 0,
        ensures
            ({
                let out = lex_from(old(self).data@, old(self).index as int, old(self).line as nat);
                &&& final(self).lexemes@.map_values(|l: Lexeme| l@) == out.lexemes
                &&& final(self).errors@ == out.errors
            }),
    {
        let ghost data = self.data@;
        let ghost out = lex_from(data, self.index as int, self.line as nat);

        loop
            invariant
                self.wf(),
                self.data@ == data,
                ({
                    let rest = lex_from(data, self.index as int, self.line as nat);
                    &&& out.lexemes == self.lexemes@.map_values(|l: Lexeme| l@) + rest.lexemes
                    &&& out.errors == self.errors@ + rest.errors
                }),
            decreases data.len() - self.index,
        {
            let ghost iprev = self.index as int;
            let ghost lprev = self.line as nat;
            let ghost lexsprev = self.lexemes@;
            let ghost errsprev = self.errors@;
            let lexeme_result = self.lex_next();
            proof {
                let (res, n, l2) = lex_next_model(data, iprev, lprev);
                assert(lex_from(data, iprev, lprev) == ({
                    let n2 = if n < iprev + 1 {
                        iprev + 1
                    } else if n > data.len() {
                        data.len() as int
                    } else {
                        n
                    };
                    match res {
                        Ok(lx) => {
                            if lx.kind == LexemeType::EOF {
                                LexOut { lexemes: seq![lx], errors: Seq::empty() }
                            } else {
                                let rest = lex_from(data, n2, l2);
                                LexOut { lexemes: seq![lx] + rest.lexemes, errors: rest.errors }
                            }
                        },
                        Err(m) => {
                            let rest = lex_from(data, n2, l2);
                            LexOut { lexemes: rest.lexemes, errors: m + rest.errors }
                        },
                    }
                }));
            }
            match lexeme_result {
                Ok(lexeme) => {
                    let is_eof = lexeme.lexeme_type == LexemeType::EOF;
                    self.lexemes.push(lexeme);
                    proof {
                        assert(self.lexemes@.map_values(|l: Lexeme| l@) =~= lexsprev.map_values(
                            |l: Lexeme| l@,
                        ) + seq![self.lexemes@[lexsprev.len() as int]@]);
                    }
                    // Terminate lexing when the end-of-input lexeme is found.
                    if is_eof {
                        proof {
                            assert(out.lexemes =~= self.lexemes@.map_values(|l: Lexeme| l@));
                            assert(out.errors =~= self.errors@);
                        }
                        break ;
                    }
                },
                Err(message) => {
                    self.errors.append(message.as_str());
                },
            }
        }
    }
}

/// Given a string containing the source code, return the list of lexemes
/// associated with that source, or the concatenation of every lexing error
/// found along the way.
#[verifier::loop_isolation(false)]
pub fn lex(data: &str) -> (r: Result<Vec<Lexeme>, String>)
    requires
        data@.len() < usize::MAX,
    ensures
        match r {
            Ok(v) => lex_model(data@).errors.len() == 0 && v@.map_values(|l: Lexeme| l@)
                == lex_model(data@).lexemes,
            Err(e) => lex_model(data@).errors.len() > 0 && e@ == lex_model(data@).errors,
        },
{
    let n = data.unicode_len();
    let mut chars: Vec<char> = Vec::new();
    let mut i: usize = 0;
    while i < n
        invariant
            n == data@.len(),
            i <= n,
            chars@ == data@.subrange(0, i as int),
        decreases n - i,
    {
        chars.push(data.get_char(i));
        i = i + 1;
        proof {
            assert(chars@ =~= data@.subrange(0, i as int));
        }
    }
    proof {
        assert(chars@ =~= data@);
    }
    let mut lexer = Lexer {
        data: chars,
        index: 0,
        lexemes: Vec::new(),
        errors: String::new(),
        line: 1,
    };
    lexer.lex();
    // Attempt to lex the entire program before reporting errors.
    if lexer.errors.as_str().is_empty() {
        Ok(lexer.lexemes)
    } else {
        Err(lexer.errors)
    }
}

} // verus!
