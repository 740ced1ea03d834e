//! The parser: recursive descent over the lexeme sequence, building an
//! expression tree. When a subexpression fails, the surrounding repetition
//! is not abandoned: the parser keeps scanning siblings at the same
//! precedence level and concatenates every error message it finds, so one
//! pass surfaces every mistake.
//!
//! Grammar, tightest binding last, with `**` right-associative:
//! assignment := Identifier '=' additive | additive
//! additive := multiplicative (('+'|'-') multiplicative)*
//! multiplicative := exponent (('*'|'/') exponent)*
//! exponent := atom ('**' exponent)?
//! atom := '(' additive ')' | Number
//!
//! The `parse_*_model` spec functions are the mathematical twins of the
//! executable methods; `parse` returns exactly what `parse_model` describes.

use vstd::prelude::*;

use crate::ast::ast::{ast_model, wf_expr, ASTNode, AstModel};
use crate::frontend::lexer::{Lexeme, LexemeModel, LexemeType};
use crate::text::{dec_str, decimal_string};
use crate::values::{is_numeral, numeral_bits, value_of_numeral};
use vstd::string::StringExecFns;
use vstd::utf8::encode_utf8;

verus! {

/// The lexeme sequence as the parser may assume it from the lexer: at
/// least the end-of-input lexeme, which closes the sequence and appears
/// nowhere else; numeric texts have the literal shape the lexer produces;
/// identifier names fit the bytecode's one length byte.
pub open spec fn wf_lexemes(ls: Seq<LexemeModel>) -> bool {
    &&& ls.len() >= 1
    &&& ls[ls.len() - 1].kind == LexemeType::EOF
    &&& forall|i: int| 0 <= i < ls.len() - 1 ==> (#[trigger] ls[i].kind) != LexemeType::EOF
    &&& forall|i: int|
        0 <= i < ls.len() && (#[trigger] ls[i].kind) == LexemeType::Numeric ==> is_numeral(
            ls[i].text,
        )
    &&& forall|i: int|
        0 <= i < ls.len() && (#[trigger] ls[i].kind) == LexemeType::Identifier ==> encode_utf8(
            ls[i].text,
        ).len() <= 255
}

/// The models of a vector of lexemes.
pub open spec fn lexemes_model(v: Seq<Lexeme>) -> Seq<LexemeModel> {
    v.map_values(|l: Lexeme| l@)
}

/// A parsing result seen at the model level.
pub open spec fn astres_model(r: Result<ASTNode, String>) -> Result<AstModel, Seq<char>> {
    match r {
        Ok(a) => Ok(ast_model(a)),
        Err(e) => Err(e@),
    }
}

/// What one parsing step yields: the tree or the concatenated errors, and
/// the cursor position after the step.
pub ghost struct ParseStep {
    pub out: Result<AstModel, Seq<char>>,
    pub next: int,
}

pub open spec fn msg_expected_number(lx: LexemeModel) -> Seq<char> {
    "Expected number on line "@ + dec_str(lx.line) + ", got "@ + lx.text + " instead.\n"@
}

pub open spec fn msg_expected_paren(lx: LexemeModel) -> Seq<char> {
    "Expected ')' on line "@ + dec_str(lx.line) + ", got "@ + lx.text + " instead.\n"@
}

pub open spec fn msg_expected_equals(lx: LexemeModel) -> Seq<char> {
    "Expected equals on line "@ + dec_str(lx.line) + ".\n"@
}

pub open spec fn kind_text(k: LexemeType) -> Seq<char> {
    match k {
        LexemeType::Identifier => "Identifier"@,
        LexemeType::Numeric => "Numeric"@,
        LexemeType::OpenParen => "OpenParen"@,
        LexemeType::CloseParen => "CloseParen"@,
        LexemeType::Plus => "Plus"@,
        LexemeType::Minus => "Minus"@,
        LexemeType::Star => "Star"@,
        LexemeType::DoubleStar => "DoubleStar"@,
        LexemeType::Slash => "Slash"@,
        LexemeType::Equals => "Equals"@,
        LexemeType::EOF => "EOF"@,
    }
}

/// The rendering of a whole lexeme inside the trailing-input message.
pub open spec fn lexeme_text(lx: LexemeModel) -> Seq<char> {
    "Lexeme { lexeme_type: "@ + kind_text(lx.kind) + ", line: "@ + dec_str(lx.line)
        + ", text: \""@ + lx.text + "\" }"@
}

pub open spec fn msg_trailing(lx: LexemeModel) -> Seq<char> {
    "Expected EOF, got "@ + lexeme_text(lx) + ".\n "@
}

/// An index clamped into a range, so that the recursive definitions below
/// visibly terminate; on lexer output the clamps never bite.
pub open spec fn clampi(n: int, lo: int, hi: int) -> int {
    let m = if n < lo {
        lo
    } else {
        n
    };
    if m > hi {
        hi
    } else {
        m
    }
}

/// How many lexemes remain at cursor `i`: the termination measure of the
/// definitions below.
pub open spec fn rem(ls: Seq<LexemeModel>, i: int) -> int {
    if i <= ls.len() {
        ls.len() - i
    } else {
        0
    }
}

/// A number atom: only consumes input if a number is under the cursor.
pub open spec fn parse_number_model(ls: Seq<LexemeModel>, i: int) -> ParseStep {
    if ls[i].kind == LexemeType::Numeric {
        ParseStep { out: Ok(AstModel::Number { value: numeral_bits(ls[i].text) }), next: i + 1 }
    } else {
        ParseStep { out: Err(msg_expected_number(ls[i])), next: i }
    }
}

/// An atom: a parenthesised additive expression or a plain number.
pub open spec fn parse_atom_model(ls: Seq<LexemeModel>, i: int) -> ParseStep
    decreases rem(ls, i), 8int,
{
    if i < ls.len() && ls[i].kind == LexemeType::OpenParen {
        let v = parse_add_model(ls, i + 1);
        if ls[v.next].kind != LexemeType::CloseParen {
            ParseStep { out: Err(msg_expected_paren(ls[v.next])), next: v.next }
        } else {
            ParseStep { out: v.out, next: v.next + 1 }
        }
    } else {
        parse_number_model(ls, i)
    }
}

/// An exponentiation: right-recursive, so `**` associates to the right.
pub open spec fn parse_exponentiation_model(ls: Seq<LexemeModel>, i: int) -> ParseStep
    decreases rem(ls, i), 9int,
{
    let root = parse_atom_model(ls, i);
    let k = clampi(root.next, i, ls.len() as int);
    if k < ls.len() && ls[k].kind == LexemeType::DoubleStar {
        let right = parse_exponentiation_model(ls, k + 1);
        if root.out is Ok && right.out is Ok {
            ParseStep {
                out: Ok(
                    AstModel::Exponentiate {
                        left: Box::new(root.out->Ok_0),
                        right: Box::new(right.out->Ok_0),
                    },
                ),
                next: right.next,
            }
        } else {
            let err = (if root.out is Err {
                root.out->Err_0
            } else {
                Seq::empty()
            }) + (if right.out is Err {
                right.out->Err_0
            } else {
                Seq::empty()
            });
            ParseStep { out: Err(err), next: right.next }
        }
    } else {
        root
    }
}

/// The repetition of a multiplicative expression: `*` and `/` operands at
/// the cursor are folded left-associatively; a failed operand adds its
/// errors but the scan continues.
pub open spec fn parse_mul_more(
    ls: Seq<LexemeModel>,
    j: int,
    left: Result<AstModel, Seq<char>>,
    err: Seq<char>,
) -> ParseStep
    decreases rem(ls, j), 10int,
{
    if j < ls.len() && (ls[j].kind == LexemeType::Star || ls[j].kind == LexemeType::Slash) {
        let op = ls[j].kind;
        let right = parse_exponentiation_model(ls, j + 1);
        let rn = clampi(right.next, j + 1, ls.len() as int);
        let err2 = err + if right.out is Err {
            right.out->Err_0
        } else {
            Seq::empty()
        };
        let left2 = if left is Ok && right.out is Ok {
            if op == LexemeType::Star {
                Ok(
                    AstModel::Multiply {
                        left: Box::new(left->Ok_0),
                        right: Box::new(right.out->Ok_0),
                    },
                )
            } else {
                Ok(AstModel::Divide { left: Box::new(left->Ok_0), right: Box::new(right.out->Ok_0) })
            }
        } else {
            left
        };
        parse_mul_more(ls, rn, left2, err2)
    } else {
        ParseStep {
            out: if err.len() > 0 {
                Err(err)
            } else {
                left
            },
            next: j,
        }
    }
}

/// A multiplicative expression.
pub open spec fn parse_multiply_model(ls: Seq<LexemeModel>, i: int) -> ParseStep
    decreases rem(ls, i), 11int,
{
    let left = parse_exponentiation_model(ls, i);
    let j = clampi(left.next, i, ls.len() as int);
    let err = if left.out is Err {
        left.out->Err_0
    } else {
        Seq::empty()
    };
    parse_mul_more(ls, j, left.out, err)
}

/// The repetition of an additive expression, like `parse_mul_more`.
pub open spec fn parse_add_more(
    ls: Seq<LexemeModel>,
    j: int,
    left: Result<AstModel, Seq<char>>,
    err: Seq<char>,
) -> ParseStep
    decreases rem(ls, j), 12int,
{
    if j < ls.len() && (ls[j].kind == LexemeType::Plus || ls[j].kind == LexemeType::Minus) {
        let op = ls[j].kind;
        let right = parse_multiply_model(ls, j + 1);
        let rn = clampi(right.next, j + 1, ls.len() as int);
        let err2 = err + if right.out is Err {
            right.out->Err_0
        } else {
            Seq::empty()
        };
        let left2 = if left is Ok && right.out is Ok {
            if op == LexemeType::Plus {
                Ok(AstModel::Add { left: Box::new(left->Ok_0), right: Box::new(right.out->Ok_0) })
            } else {
                Ok(
                    AstModel::Subtract {
                        left: Box::new(left->Ok_0),
                        right: Box::new(right.out->Ok_0),
                    },
                )
            }
        } else {
            left
        };
        parse_add_more(ls, rn, left2, err2)
    } else {
        ParseStep {
            out: if err.len() > 0 {
                Err(err)
            } else {
                left
            },
            next: j,
        }
    }
}

/// An additive expression.
pub open spec fn parse_add_model(ls: Seq<LexemeModel>, i: int) -> ParseStep
    decreases rem(ls, i), 13int,
{
    let left = parse_multiply_model(ls, i);
    let j = clampi(left.next, i, ls.len() as int);
    let err = if left.out is Err {
        left.out->Err_0
    } else {
        Seq::empty()
    };
    parse_add_more(ls, j, left.out, err)
}

/// An assignment `name = additive`, or a plain additive expression.
pub open spec fn parse_assign_model(ls: Seq<LexemeModel>, i: int) -> ParseStep
    decreases rem(ls, i), 14int,
{
    if i < ls.len() && ls[i].kind == LexemeType::Identifier {
        let name = ls[i].text;
        if ls[i + 1].kind != LexemeType::Equals {
            ParseStep { out: Err(msg_expected_equals(ls[i + 1])), next: i + 1 }
        } else {
            let v = parse_add_model(ls, clampi(i + 2, i, ls.len() as int));
            match v.out {
                Ok(a) => ParseStep {
                    out: Ok(AstModel::Assignment { name, value: Box::new(a) }),
                    next: v.next,
                },
                Err(e) => ParseStep { out: Err(e), next: v.next },
            }
        }
    } else {
        parse_add_model(ls, i)
    }
}

/// A whole program: one top-level expression, after which the cursor must
/// sit exactly on the end-of-input lexeme.
pub open spec fn parse_root_model(ls: Seq<LexemeModel>) -> ParseStep {
    let a = parse_assign_model(ls, 0);
    match a.out {
        Ok(ast) => {
            if a.next != ls.len() - 1 {
                ParseStep { out: Err(msg_trailing(ls[a.next])), next: a.next }
            } else {
                ParseStep { out: Ok(ast), next: a.next }
            }
        },
        Err(e) => ParseStep { out: Err(e), next: a.next },
    }
}

/// What parsing a lexeme sequence yields: nothing for an empty input,
/// otherwise the tree or the concatenated errors.
pub open spec fn parse_model(ls: Seq<LexemeModel>) -> Option<Result<AstModel, Seq<char>>> {
    if ls[0].kind == LexemeType::EOF {
        None
    } else {
        Some(parse_root_model(ls).out)
    }
}

// Contain relevant data for parsing
struct Parser {
    index: usize,
    lexemes: Vec<Lexeme>,
}

impl Parser {
    spec fn ls(self) -> Seq<LexemeModel> {
        lexemes_model(self.lexemes@)
    }

    spec fn wf(self) -> bool {
        &&& wf_lexemes(self.ls())
        &&& self.index < self.lexemes@.len()
    }

    fn in_bounds(&self) -> (r: bool)
        ensures
            r == (self.index < self.lexemes@.len()),
    {
        self.index < self.lexemes.len()
    }

    fn advance(&mut self)
        requires
            old(self).index < old(self).lexemes@.len(),
        ensures
            final(self).lexemes == old(self).lexemes,
            final(self).index == old(self).index + 1,
    {
        // The length call bounds the cursor for the increment.
        let _len = self.lexemes.len();
        self.index = self.index + 1;
    }

    fn current(&self) -> (l: &Lexeme)
        requires
            self.index < self.lexemes@.len(),
        ensures
            *l == self.lexemes@[self.index as int],
            l@ == self.ls()[self.index as int],
    {
        &self.lexemes[self.index]
    }
}

fn kind_string(k: LexemeType) -> (r: String)
    ensures
        r@ == kind_text(k),
{
    match k {
        LexemeType::Identifier => String::from_str("Identifier"),
        LexemeType::Numeric => String::from_str("Numeric"),
        LexemeType::OpenParen => String::from_str("OpenParen"),
        LexemeType::CloseParen => String::from_str("CloseParen"),
        LexemeType::Plus => String::from_str("Plus"),
        LexemeType::Minus => String::from_str("Minus"),
        LexemeType::Star => String::from_str("Star"),
        LexemeType::DoubleStar => String::from_str("DoubleStar"),
        LexemeType::Slash => String::from_str("Slash"),
        LexemeType::Equals => String::from_str("Equals"),
        LexemeType::EOF => String::from_str("EOF"),
    }
}

fn lexeme_string(l: &Lexeme) -> (r: String)
    ensures
        r@ == lexeme_text(l@),
{
    let mut m = String::from_str("Lexeme { lexeme_type: ");
    let k = kind_string(l.lexeme_type);
    m.append(k.as_str());
    m.append(", line: ");
    let line = decimal_string(l.line);
    m.append(line.as_str());
    m.append(", text: \"");
    m.append(l.text.as_str());
    m.append("\" }");
    m
}

impl Parser {
    #[verifier::loop_isolation(false)]
    fn parse(&mut self) -> (r: Result<ASTNode, String>)
        requires
            old(self).wf(),
            old(self).index == 0,
        ensures
            ({
                let st = parse_root_model(old(self).ls());
                astres_model(r) == st.out
            }),
            r matches Ok(a) ==> wf_expr(a@),
        decreases old(self).lexemes@.len() - old(self).index, 15int,
    {
        let ast = self.parse_assign();
        match ast {
            Ok(ast) => {
                // Complain if some of the expression tree was ignored.
                if self.index != self.lexemes.len() - 1 {
                    let l = self.current();
                    let ls = lexeme_string(l);
                    let mut m = String::from_str("Expected EOF, got ");
                    m.append(ls.as_str());
                    m.append(".\n ");
                    Err(m)
                } else {
                    Ok(ast)
                }
            },
            Err(error) => Err(error),
        }
    }

    fn parse_assign(&mut self) -> (r: Result<ASTNode, String>)
        requires
            old(self).wf(),
        ensures
            final(self).lexemes == old(self).lexemes,
            old(self).index <= final(self).index,
            final(self).wf(),
            ({
                let st = parse_assign_model(old(self).ls(), old(self).index as int);
                astres_model(r) == st.out && final(self).index == st.next
            }),
            r matches Ok(a) ==> wf_expr(a@),
        decreases old(self).lexemes@.len() - old(self).index, 14int,
    {
        if self.in_bounds() && self.current().lexeme_type == LexemeType::Identifier {
            let name = self.current().text.clone();
            self.advance();

            // An identifier in leading position must be an assignment
            // target, so an equals sign has to follow.
            if self.current().lexeme_type != LexemeType::Equals {
                let line = self.current().line;
                let mut m = String::from_str("Expected equals on line ");
                let lt = decimal_string(line);
                m.append(lt.as_str());
                m.append(".\n");
                return Err(m);
            }
            self.advance();

            match self.parse_add() {
                Ok(ast) => Ok(ASTNode::Assignment { name, value: Box::new(ast) }),
                Err(error) => Err(error),
            }
        } else {
            self.parse_add()
        }
    }

    #[verifier::loop_isolation(false)]
    fn parse_add(&mut self) -> (r: Result<ASTNode, String>)
        requires
            old(self).wf(),
        ensures
            final(self).lexemes == old(self).lexemes,
            old(self).index <= final(self).index,
            final(self).wf(),
            ({
                let st = parse_add_model(old(self).ls(), old(self).index as int);
                astres_model(r) == st.out && final(self).index == st.next
            }),
            r matches Ok(a) ==> wf_expr(a@),
        decreases old(self).lexemes@.len() - old(self).index, 13int,
    {
        let ghost ls = self.ls();
        let ghost i0 = self.index as int;
        let mut left = self.parse_multiply();

        // If the left side failed, prime the error report with its message.
        let mut err_message = if let Err(message) = &left {
            message.clone()
        } else {
            String::new()
        };

        let ghost j0 = self.index as int;
        let ghost left0 = astres_model(left);
        let ghost err0 = err_message@;

        // Even if an error was found, continue parsing to gain more errors.
        while self.in_bounds() && (self.current().lexeme_type == LexemeType::Plus
            || self.current().lexeme_type == LexemeType::Minus)
            invariant
                self.wf(),
                self.lexemes == old(self).lexemes,
                j0 <= self.index,
                parse_add_more(ls, self.index as int, astres_model(left), err_message@)
                    == parse_add_more(ls, j0, left0, err0),
                left matches Ok(a) ==> wf_expr(a@),
            decreases self.lexemes@.len() - self.index,
        {
            let operation = self.current().lexeme_type;
            self.advance();

            let right = self.parse_multiply();
            if let Err(error) = &right {
                err_message.append(error.as_str());
            }

            if left.is_ok() && right.is_ok() {
                match (left, right) {
                    (Ok(l), Ok(rr)) => {
                        if operation == LexemeType::Plus {
                            left = Ok(ASTNode::Add { left: Box::new(l), right: Box::new(rr) });
                        } else {
                            left = Ok(ASTNode::Subtract { left: Box::new(l), right: Box::new(rr) });
                        }
                    },
                    (l, _) => {
                        left = l;
                    },
                }
            }
        }

        if !err_message.as_str().is_empty() {
            Err(err_message)
        } else {
            match left {
                Ok(a) => Ok(a),
                Err(e) => Err(e),
            }
        }
    }

    #[verifier::loop_isolation(false)]
    fn parse_multiply(&mut self) -> (r: Result<ASTNode, String>)
        requires
            old(self).wf(),
        ensures
            final(self).lexemes == old(self).lexemes,
            old(self).index <= final(self).index,
            final(self).wf(),
            ({
                let st = parse_multiply_model(old(self).ls(), old(self).index as int);
                astres_model(r) == st.out && final(self).index == st.next
            }),
            r matches Ok(a) ==> wf_expr(a@),
        decreases old(self).lexemes@.len() - old(self).index, 11int,
    {
        let ghost ls = self.ls();
        let ghost i0 = self.index as int;
        let mut left = self.parse_exponentiation();

        // If the left side failed, prime the error report with its message.
        let mut err_message = if let Err(message) = &left {
            message.clone()
        } else {
            String::new()
        };

        let ghost j0 = self.index as int;
        let ghost left0 = astres_model(left);
        let ghost err0 = err_message@;

        // Even if an error was found, continue parsing to gain more errors.
        while self.in_bounds() && (self.current().lexeme_type == LexemeType::Star
            || self.current().lexeme_type == LexemeType::Slash)
            invariant
                self.wf(),
                self.lexemes == old(self).lexemes,
                j0 <= self.index,
                parse_mul_more(ls, self.index as int, astres_model(left), err_message@)
                    == parse_mul_more(ls, j0, left0, err0),
                left matches Ok(a) ==> wf_expr(a@),
            decreases self.lexemes@.len() - self.index,
        {
            let operation = self.current().lexeme_type;
            self.advance();

            let right = self.parse_exponentiation();
            if let Err(error) = &right {
                err_message.append(error.as_str());
            }

            if left.is_ok() && right.is_ok() {
                match (left, right) {
                    (Ok(l), Ok(rr)) => {
                        if operation == LexemeType::Star {
                            left = Ok(ASTNode::Multiply { left: Box::new(l), right: Box::new(rr) });
                        } else {
                            left = Ok(ASTNode::Divide { left: Box::new(l), right: Box::new(rr) });
                        }
                    },
                    (l, _) => {
                        left = l;
                    },
                }
            }
        }

        if !err_message.as_str().is_empty() {
            Err(err_message)
        } else {
            match left {
                Ok(a) => Ok(a),
                Err(e) => Err(e),
            }
        }
    }

    fn parse_exponentiation(&mut self) -> (r: Result<ASTNode, String>)
        requires
            old(self).wf(),
        ensures
            final(self).lexemes == old(self).lexemes,
            old(self).index <= final(self).index,
            final(self).wf(),
            ({
                let st = parse_exponentiation_model(old(self).ls(), old(self).index as int);
                astres_model(r) == st.out && final(self).index == st.next
            }),
            r matches Ok(a) ==> wf_expr(a@),
        decreases old(self).lexemes@.len() - old(self).index, 9int,
    {
        // Root of a right-associative exponentiation tree.
        let root_expression = self.parse_atom();

        // If the next lexeme in the stream is a double star, recurse: right
        // associativity makes the recursive implementation natural.
        if self.in_bounds() && self.current().lexeme_type == LexemeType::DoubleStar {
            // Skip the double star itself.
            self.advance();

            // Recurse on the right subtree.
            let right = self.parse_exponentiation();

            match (root_expression, right) {
                (Ok(l), Ok(rr)) => Ok(
                    ASTNode::Exponentiate { left: Box::new(l), right: Box::new(rr) },
                ),
                (l, rr) => {
                    let mut err_message = if let Err(message) = &l {
                        message.clone()
                    } else {
                        String::new()
                    };
                    if let Err(error) = &rr {
                        err_message.append(error.as_str());
                    }
                    Err(err_message)
                },
            }
        } else {
            // Base case: no double star on the horizon.
            root_expression
        }
    }

    // An atom is either a parenthesised expression or a plain number.
    fn parse_atom(&mut self) -> (r: Result<ASTNode, String>)
        requires
            old(self).wf(),
        ensures
            final(self).lexemes == old(self).lexemes,
            old(self).index <= final(self).index,
            final(self).wf(),
            ({
                let st = parse_atom_model(old(self).ls(), old(self).index as int);
                astres_model(r) == st.out && final(self).index == st.next
            }),
            r matches Ok(a) ==> wf_expr(a@),
        decreases old(self).lexemes@.len() - old(self).index, 8int,
    {
        if self.current().lexeme_type == LexemeType::OpenParen {
            self.advance();
            let value = self.parse_add();
            if !(self.current().lexeme_type == LexemeType::CloseParen) {
                let line = self.current().line;
                let text = self.current().text.clone();
                let mut m = String::from_str("Expected ')' on line ");
                let lt = decimal_string(line);
                m.append(lt.as_str());
                m.append(", got ");
                m.append(text.as_str());
                m.append(" instead.\n");
                Err(m)
            } else {
                self.advance();
                value
            }
        } else {
            self.parse_number()
        }
    }

    fn parse_number(&mut self) -> (r: Result<ASTNode, String>)
        requires
            old(self).wf(),
        ensures
            final(self).lexemes == old(self).lexemes,
            old(self).index <= final(self).index,
            final(self).wf(),
            ({
                let st = parse_number_model(old(self).ls(), old(self).index as int);
                astres_model(r) == st.out && final(self).index == st.next
            }),
            r matches Ok(a) ==> wf_expr(a@),
    {
        // Only consume input if a valid number was found.
        if self.current().lexeme_type == LexemeType::Numeric {
            let bits = value_of_numeral(self.current().text.as_str());
            let value = Ok(ASTNode::Number { value: bits });
            self.advance();
            value
        } else {
            let line = self.current().line;
            let text = self.current().text.clone();
            let mut m = String::from_str("Expected number on line ");
            let lt = decimal_string(line);
            m.append(lt.as_str());
            m.append(", got ");
            m.append(text.as_str());
            m.append(" instead.\n");
            Err(m)
        }
    }
}

/// Given an ordered collection of lexemes, build an expression tree, or
/// report every syntax error found in one pass. An empty program (only the
/// end-of-input lexeme) yields nothing.
pub fn parse(lexemes: Vec<Lexeme>) -> (r: Option<Result<ASTNode, String>>)
    requires
        wf_lexemes(lexemes_model(lexemes@)),
    ensures
        ({
            let m = parse_model(lexemes_model(lexemes@));
            match r {
                None => m is None,
                Some(res) => m matches Some(mres) && astres_model(res) == mres,
            }
        }),
        r matches Some(Ok(a)) ==> wf_expr(a@),
{
    // There is always at least the end-of-input lexeme.
    if lexemes[0].lexeme_type == LexemeType::EOF {
        None
    } else {
        let mut parser = Parser { index: 0, lexemes };
        Some(parser.parse())
    }
}

} // verus!
