//! The recursive-descent parser: token stream to expression tree.
//!
//! Precedence, lowest to highest: `||`, `&&`, equality, relational,
//! additive, multiplicative, unary, application, primary; chains of
//! one level associate to the left.  Type annotations follow
//! `type ::= primitive ("->" primitive)*` with `->` associating to the
//! right, and a parenthesised type is accepted where a primitive is.
//!
//! The parser owns the remaining tokens (its view, in parse order) and
//! never panics; each step consumes tokens and never puts any back.

use vstd::prelude::*;
use crate::expression::{BinOp, ExpectedType, Expr, UnOp};
use crate::tokenize::{spec_tokenize, tokens_view, Token, TokenView, Tokenizer};

verus! {

/// Everything that can go wrong while parsing.
#[derive(Clone, Copy, Debug, PartialEq, Eq, Structural)]
pub enum ParseError {
    /// A token other than the expected one was found.
    UnexpectedToken,
    /// The input ended where a token was required.
    UnexpectedEof,
    /// An identifier was required but something else was found.
    NotAnIdentifier,
    /// A type was required but something else was found.
    NotAType,
    /// An integer literal in the input exceeds the 64-bit signed
    /// range.
    InvalidNumber,
}

/// Whether two tokens carry the same text and value.
fn token_eq(a: &Token, b: &Token) -> (r: bool)
    ensures
        r == (a@ == b@),
{
    match (a, b) {
        (Token::Int(x), Token::Int(y)) => *x == *y,
        (Token::Symbol(s), Token::Symbol(t)) => s.eq(t),
        (Token::Keyword(s), Token::Keyword(t)) => s.eq(t),
        (Token::Type(s), Token::Type(t)) => s.eq(t),
        (Token::Ident(s), Token::Ident(t)) => s.eq(t),
        _ => false,
    }
}

/// A symbol token with the given text.
fn sym(s: &str) -> (t: Token)
    ensures
        t@ == TokenView::Symbol(s@),
{
    Token::Symbol(String::from_str(s))
}

/// A keyword token with the given text.
fn kwd(s: &str) -> (t: Token)
    ensures
        t@ == TokenView::Keyword(s@),
{
    Token::Keyword(String::from_str(s))
}

/// The recursive-descent parser.  Its view is the remaining input, in
/// parse order.
pub struct Parser {
    tokens: Vec<Token>,
    lex_failed: bool,
}

impl View for Parser {
    type V = Seq<TokenView>;

    closed spec fn view(&self) -> Seq<TokenView> {
        tokens_view(self.tokens@).reverse()
    }
}

impl Parser {
    /// Whether scanning the input succeeded.
    pub closed spec fn lex_ok(&self) -> bool {
        !self.lex_failed
    }

    /// Scans `input` and readies the parser on its token stream.
    pub fn new(input: &str) -> (p: Parser)
        ensures
            match spec_tokenize(input@, 0) {
                Some(toks) => p.lex_ok() && p@ == toks,
                None => !p.lex_ok(),
            },
    {
        let scanned = Tokenizer::new(input).tokenize();
        match scanned {
            None => Parser { tokens: Vec::new(), lex_failed: true },
            Some(mut toks) => {
                let ghost orig = toks@;
                let mut rev: Vec<Token> = Vec::new();
                loop
                    invariant
                        tokens_view(orig) =~= tokens_view(toks@) + tokens_view(rev@).reverse(),
                    ensures
                        toks@.len() == 0,
                        tokens_view(orig) =~= tokens_view(toks@) + tokens_view(rev@).reverse(),
                    decreases toks@.len(),
                {
                    let ghost toks_before = toks@;
                    let ghost rev_before = rev@;
                    match toks.pop() {
                        Some(t) => {
                            let ghost tv = t@;
                            rev.push(t);
                            proof {
                                assert(tokens_view(toks@) =~= tokens_view(
                                    toks_before,
                                ).drop_last());
                                assert(tokens_view(rev@) =~= tokens_view(rev_before).push(tv));
                                assert(tokens_view(rev@).reverse() =~= seq![tv] + tokens_view(
                                    rev_before,
                                ).reverse());
                                assert(tokens_view(toks@) + tokens_view(rev@).reverse()
                                    =~= tokens_view(toks_before) + tokens_view(
                                    rev_before,
                                ).reverse());
                            }
                        },
                        None => {
                            break;
                        },
                    }
                }
                proof {
                    assert(tokens_view(toks@) =~= Seq::<TokenView>::empty());
                    assert(Seq::<TokenView>::empty() + tokens_view(rev@).reverse()
                        =~= tokens_view(rev@).reverse());
                    assert(tokens_view(orig) =~= tokens_view(rev@).reverse());
                }
                Parser { tokens: rev, lex_failed: false }
            },
        }
    }

    /// Pops the next token if it equals `token`.
    fn consume(&mut self, token: &Token) -> (r: bool)
        ensures
            r ==> old(self)@.len() > 0 && final(self)@ == old(self)@.skip(1),
            !r ==> final(self)@ == old(self)@,
            final(self).lex_ok() == old(self).lex_ok(),
    {
        let n = self.tokens.len();
        if n == 0 {
            return false;
        }
        if token_eq(&self.tokens[n - 1], token) {
            let _ = self.tokens.pop();
            proof {
                assert(self@ =~= old(self)@.skip(1));
            }
            true
        } else {
            false
        }
    }

    /// Pops the next token, which must equal `token`.
    fn expect(&mut self, token: &Token) -> (r: Result<(), ParseError>)
        ensures
            final(self)@.len() <= old(self)@.len(),
            r is Ok ==> old(self)@.len() > 0 && final(self)@ == old(self)@.skip(1),
            final(self).lex_ok() == old(self).lex_ok(),
    {
        match self.tokens.pop() {
            Some(t) => {
                proof {
                    assert(self@ =~= old(self)@.skip(1));
                }
                if token_eq(&t, token) {
                    Ok(())
                } else {
                    Err(ParseError::UnexpectedToken)
                }
            },
            None => Err(ParseError::UnexpectedEof),
        }
    }

    /// Pops the next token if it is an integer literal.
    fn consume_int(&mut self) -> (r: Option<i64>)
        ensures
            r is Some ==> old(self)@.len() > 0 && final(self)@ == old(self)@.skip(1),
            r is None ==> final(self)@ == old(self)@,
            final(self).lex_ok() == old(self).lex_ok(),
    {
        let n = self.tokens.len();
        if n == 0 {
            return None;
        }
        match &self.tokens[n - 1] {
            Token::Int(v) => {
                let val = *v;
                let _ = self.tokens.pop();
                proof {
                    assert(self@ =~= old(self)@.skip(1));
                }
                Some(val)
            },
            _ => None,
        }
    }

    /// Pops the next token if it is the keyword `true` or `false`.
    fn consume_bool(&mut self) -> (r: Option<bool>)
        ensures
            r is Some ==> old(self)@.len() > 0 && final(self)@ == old(self)@.skip(1),
            r is None ==> final(self)@ == old(self)@,
            final(self).lex_ok() == old(self).lex_ok(),
    {
        let n = self.tokens.len();
        if n == 0 {
            return None;
        }
        match &self.tokens[n - 1] {
            Token::Keyword(w) => {
                let is_true = w.eq(&String::from_str("true"));
                let is_false = w.eq(&String::from_str("false"));
                if is_true || is_false {
                    let _ = self.tokens.pop();
                    proof {
                        assert(self@ =~= old(self)@.skip(1));
                    }
                    Some(is_true)
                } else {
                    None
                }
            },
            _ => None,
        }
    }

    /// Pops the next token if it is an identifier.
    fn consume_ident(&mut self) -> (r: Option<String>)
        ensures
            r is Some ==> old(self)@.len() > 0 && final(self)@ == old(self)@.skip(1),
            r is None ==> final(self)@ == old(self)@,
            final(self).lex_ok() == old(self).lex_ok(),
    {
        let n = self.tokens.len();
        if n == 0 {
            return None;
        }
        let found = match &self.tokens[n - 1] {
            Token::Ident(_) => true,
            _ => false,
        };
        if found {
            match self.tokens.pop() {
                Some(Token::Ident(name)) => {
                    proof {
                        assert(self@ =~= old(self)@.skip(1));
                    }
                    Some(name)
                },
                _ => None,
            }
        } else {
            None
        }
    }

    /// Pops the next token, which must be an identifier.
    fn expect_ident(&mut self) -> (r: Result<String, ParseError>)
        ensures
            final(self)@.len() <= old(self)@.len(),
            r is Ok ==> old(self)@.len() > 0 && final(self)@ == old(self)@.skip(1),
            final(self).lex_ok() == old(self).lex_ok(),
    {
        match self.tokens.pop() {
            Some(Token::Ident(name)) => {
                proof {
                    assert(self@ =~= old(self)@.skip(1));
                }
                Ok(name)
            },
            Some(_) => {
                proof {
                    assert(self@ =~= old(self)@.skip(1));
                }
                Err(ParseError::NotAnIdentifier)
            },
            None => Err(ParseError::NotAnIdentifier),
        }
    }

    /// An expression: the `if` level.
    pub fn expr(&mut self) -> (r: Result<Expr, ParseError>)
        ensures
            final(self)@.len() <= old(self)@.len(),
            final(self).lex_ok() == old(self).lex_ok(),
            !old(self).lex_ok() ==> r == Err::<Expr, ParseError>(ParseError::InvalidNumber),
        decreases old(self)@.len(), 11int,
    {
        if self.lex_failed {
            return Err(ParseError::InvalidNumber);
        }
        self.parse_if()
    }

    /// A primary expression: a lambda, a parenthesised expression, a
    /// literal, or an identifier.
    fn primary(&mut self) -> (r: Result<Expr, ParseError>)
        ensures
            final(self)@.len() <= old(self)@.len(),
            final(self).lex_ok() == old(self).lex_ok(),
        decreases old(self)@.len(), 1int,
    {
        if self.consume(&kwd("lambda")) {
            match self.expect(&sym("(")) {
                Ok(()) => {},
                Err(e) => {
                    return Err(e);
                },
            }
            let ident = match self.expect_ident() {
                Ok(name) => name,
                Err(e) => {
                    return Err(e);
                },
            };
            let ty = if self.consume(&sym(":")) {
                match self.parse_ty() {
                    Ok(t) => t,
                    Err(e) => {
                        return Err(e);
                    },
                }
            } else {
                ExpectedType::Unknown
            };
            match self.expect(&sym(")")) {
                Ok(()) => {},
                Err(e) => {
                    return Err(e);
                },
            }
            match self.expect(&sym("{")) {
                Ok(()) => {},
                Err(e) => {
                    return Err(e);
                },
            }
            let body = match self.prog() {
                Ok(b) => b,
                Err(e) => {
                    return Err(e);
                },
            };
            match self.expect(&sym("}")) {
                Ok(()) => {},
                Err(e) => {
                    return Err(e);
                },
            }
            Ok(Expr::lambda(ident, ty, body))
        } else if self.consume(&sym("(")) {
            let exp = match self.expr() {
                Ok(e) => e,
                Err(e) => {
                    return Err(e);
                },
            };
            match self.expect(&sym(")")) {
                Ok(()) => Ok(exp),
                Err(e) => Err(e),
            }
        } else if let Some(num) = self.consume_int() {
            Ok(Expr::integer(num))
        } else if let Some(b) = self.consume_bool() {
            Ok(Expr::boolean(b))
        } else if let Some(name) = self.consume_ident() {
            Ok(Expr::ident(name))
        } else {
            Err(ParseError::UnexpectedToken)
        }
    }

    /// An `if` expression, or anything of higher precedence.
    fn parse_if(&mut self) -> (r: Result<Expr, ParseError>)
        ensures
            final(self)@.len() <= old(self)@.len(),
            final(self).lex_ok() == old(self).lex_ok(),
        decreases old(self)@.len(), 10int,
    {
        if self.consume(&kwd("if")) {
            match self.expect(&sym("(")) {
                Ok(()) => {},
                Err(e) => {
                    return Err(e);
                },
            }
            let cond = match self.or() {
                Ok(e) => e,
                Err(e) => {
                    return Err(e);
                },
            };
            match self.expect(&sym(")")) {
                Ok(()) => {},
                Err(e) => {
                    return Err(e);
                },
            }
            match self.expect(&sym("{")) {
                Ok(()) => {},
                Err(e) => {
                    return Err(e);
                },
            }
            let exp1 = match self.or() {
                Ok(e) => e,
                Err(e) => {
                    return Err(e);
                },
            };
            match self.expect(&sym("}")) {
                Ok(()) => {},
                Err(e) => {
                    return Err(e);
                },
            }
            match self.expect(&kwd("else")) {
                Ok(()) => {},
                Err(e) => {
                    return Err(e);
                },
            }
            match self.expect(&sym("{")) {
                Ok(()) => {},
                Err(e) => {
                    return Err(e);
                },
            }
            let exp2 = match self.or() {
                Ok(e) => e,
                Err(e) => {
                    return Err(e);
                },
            };
            match self.expect(&sym("}")) {
                Ok(()) => {},
                Err(e) => {
                    return Err(e);
                },
            }
            Ok(Expr::if_expr(cond, exp1, exp2))
        } else {
            self.or()
        }
    }

    /// A chain of `||`, associating to the left.
    fn or(&mut self) -> (r: Result<Expr, ParseError>)
        ensures
            final(self)@.len() <= old(self)@.len(),
            final(self).lex_ok() == old(self).lex_ok(),
        decreases old(self)@.len(), 9int,
    {
        let mut ret = match self.and() {
            Ok(e) => e,
            Err(e) => {
                return Err(e);
            },
        };
        loop
            invariant
                self@.len() <= old(self)@.len(),
                self.lex_ok() == old(self).lex_ok(),
            decreases self@.len(),
        {
            if self.consume(&sym("||")) {
                let exp = match self.and() {
                    Ok(e) => e,
                    Err(e) => {
                        return Err(e);
                    },
                };
                ret = Expr::binop(BinOp::Or, ret, exp);
            } else {
                return Ok(ret);
            }
        }
    }

    /// A chain of `&&`, associating to the left.
    fn and(&mut self) -> (r: Result<Expr, ParseError>)
        ensures
            final(self)@.len() <= old(self)@.len(),
            final(self).lex_ok() == old(self).lex_ok(),
        decreases old(self)@.len(), 8int,
    {
        let mut ret = match self.equ() {
            Ok(e) => e,
            Err(e) => {
                return Err(e);
            },
        };
        loop
            invariant
                self@.len() <= old(self)@.len(),
                self.lex_ok() == old(self).lex_ok(),
            decreases self@.len(),
        {
            if self.consume(&sym("&&")) {
                let exp = match self.equ() {
                    Ok(e) => e,
                    Err(e) => {
                        return Err(e);
                    },
                };
                ret = Expr::binop(BinOp::And, ret, exp);
            } else {
                return Ok(ret);
            }
        }
    }

    /// A chain of `==` and `!=`, associating to the left.
    fn equ(&mut self) -> (r: Result<Expr, ParseError>)
        ensures
            final(self)@.len() <= old(self)@.len(),
            final(self).lex_ok() == old(self).lex_ok(),
        decreases old(self)@.len(), 7int,
    {
        let mut ret = match self.rel() {
            Ok(e) => e,
            Err(e) => {
                return Err(e);
            },
        };
        loop
            invariant
                self@.len() <= old(self)@.len(),
                self.lex_ok() == old(self).lex_ok(),
            decreases self@.len(),
        {
            let op = if self.consume(&sym("==")) {
                BinOp::Eq
            } else if self.consume(&sym("!=")) {
                BinOp::NotEq
            } else {
                return Ok(ret);
            };
            let exp = match self.rel() {
                Ok(e) => e,
                Err(e) => {
                    return Err(e);
                },
            };
            ret = Expr::binop(op, ret, exp);
        }
    }

    /// A chain of `<`, `>`, `<=` and `>=`, associating to the left.
    fn rel(&mut self) -> (r: Result<Expr, ParseError>)
        ensures
            final(self)@.len() <= old(self)@.len(),
            final(self).lex_ok() == old(self).lex_ok(),
        decreases old(self)@.len(), 6int,
    {
        let mut ret = match self.add() {
            Ok(e) => e,
            Err(e) => {
                return Err(e);
            },
        };
        loop
            invariant
                self@.len() <= old(self)@.len(),
                self.lex_ok() == old(self).lex_ok(),
            decreases self@.len(),
        {
            let op = if self.consume(&sym("<")) {
                BinOp::Lt
            } else if self.consume(&sym(">")) {
                BinOp::Gt
            } else if self.consume(&sym("<=")) {
                BinOp::Le
            } else if self.consume(&sym(">=")) {
                BinOp::Ge
            } else {
                return Ok(ret);
            };
            let exp = match self.add() {
                Ok(e) => e,
                Err(e) => {
                    return Err(e);
                },
            };
            ret = Expr::binop(op, ret, exp);
        }
    }

    /// A chain of `+` and `-`, associating to the left.
    fn add(&mut self) -> (r: Result<Expr, ParseError>)
        ensures
            final(self)@.len() <= old(self)@.len(),
            final(self).lex_ok() == old(self).lex_ok(),
        decreases old(self)@.len(), 5int,
    {
        let mut ret = match self.mul() {
            Ok(e) => e,
            Err(e) => {
                return Err(e);
            },
        };
        loop
            invariant
                self@.len() <= old(self)@.len(),
                self.lex_ok() == old(self).lex_ok(),
            decreases self@.len(),
        {
            let op = if self.consume(&sym("+")) {
                BinOp::Plus
            } else if self.consume(&sym("-")) {
                BinOp::Minus
            } else {
                return Ok(ret);
            };
            let exp = match self.mul() {
                Ok(e) => e,
                Err(e) => {
                    return Err(e);
                },
            };
            ret = Expr::binop(op, ret, exp);
        }
    }

    /// A chain of `*` and `/`, associating to the left.
    fn mul(&mut self) -> (r: Result<Expr, ParseError>)
        ensures
            final(self)@.len() <= old(self)@.len(),
            final(self).lex_ok() == old(self).lex_ok(),
        decreases old(self)@.len(), 4int,
    {
        let mut ret = match self.unary() {
            Ok(e) => e,
            Err(e) => {
                return Err(e);
            },
        };
        loop
            invariant
                self@.len() <= old(self)@.len(),
                self.lex_ok() == old(self).lex_ok(),
            decreases self@.len(),
        {
            let op = if self.consume(&sym("*")) {
                BinOp::Mult
            } else if self.consume(&sym("/")) {
                BinOp::Div
            } else {
                return Ok(ret);
            };
            let exp = match self.unary() {
                Ok(e) => e,
                Err(e) => {
                    return Err(e);
                },
            };
            ret = Expr::binop(op, ret, exp);
        }
    }

    /// A unary `-` or `!`, or anything of higher precedence.
    fn unary(&mut self) -> (r: Result<Expr, ParseError>)
        ensures
            final(self)@.len() <= old(self)@.len(),
            final(self).lex_ok() == old(self).lex_ok(),
        decreases old(self)@.len(), 3int,
    {
        if self.consume(&sym("-")) {
            match self.app() {
                Ok(e) => Ok(Expr::unaryop(UnOp::Neg, e)),
                Err(e) => Err(e),
            }
        } else if self.consume(&sym("!")) {
            match self.app() {
                Ok(e) => Ok(Expr::unaryop(UnOp::Not, e)),
                Err(e) => Err(e),
            }
        } else {
            self.app()
        }
    }

    /// A chain of applications `f(a)(b)`, associating to the left.
    fn app(&mut self) -> (r: Result<Expr, ParseError>)
        ensures
            final(self)@.len() <= old(self)@.len(),
            final(self).lex_ok() == old(self).lex_ok(),
        decreases old(self)@.len(), 2int,
    {
        let mut ret = match self.primary() {
            Ok(e) => e,
            Err(e) => {
                return Err(e);
            },
        };
        loop
            invariant
                self@.len() <= old(self)@.len(),
                self.lex_ok() == old(self).lex_ok(),
            decreases self@.len(),
        {
            if self.consume(&sym("(")) {
                let var = match self.expr() {
                    Ok(e) => e,
                    Err(e) => {
                        return Err(e);
                    },
                };
                match self.expect(&sym(")")) {
                    Ok(()) => {},
                    Err(e) => {
                        return Err(e);
                    },
                }
                ret = Expr::app(ret, var);
            } else {
                return Ok(ret);
            }
        }
    }

    /// A whole program: `let` bindings followed by the result
    /// expression.
    pub fn prog(&mut self) -> (r: Result<Expr, ParseError>)
        ensures
            final(self)@.len() <= old(self)@.len(),
            final(self).lex_ok() == old(self).lex_ok(),
            !old(self).lex_ok() ==> r == Err::<Expr, ParseError>(ParseError::InvalidNumber),
        decreases old(self)@.len(), 12int,
    {
        if self.lex_failed {
            return Err(ParseError::InvalidNumber);
        }
        let mut prog: Vec<Expr> = Vec::new();
        loop
            invariant
                self@.len() <= old(self)@.len(),
                self.lex_ok() == old(self).lex_ok(),
                old(self).lex_ok(),
            decreases self@.len(),
        {
            if self.consume(&kwd("let")) {
                let ident = match self.expect_ident() {
                    Ok(name) => name,
                    Err(e) => {
                        return Err(e);
                    },
                };
                let ty = if self.consume(&sym(":")) {
                    match self.parse_ty() {
                        Ok(t) => t,
                        Err(e) => {
                            return Err(e);
                        },
                    }
                } else {
                    ExpectedType::Unknown
                };
                match self.expect(&sym("=")) {
                    Ok(()) => {},
                    Err(e) => {
                        return Err(e);
                    },
                }
                let expr = match self.expr() {
                    Ok(e) => e,
                    Err(e) => {
                        return Err(e);
                    },
                };
                match self.expect(&sym(";")) {
                    Ok(()) => {},
                    Err(e) => {
                        return Err(e);
                    },
                }
                prog.push(Expr::assign(ident, ty, expr));
            } else {
                break;
            }
        }
        match self.expr() {
            Ok(ret) => Ok(Expr::program(prog, ret)),
            Err(e) => Err(e),
        }
    }

    /// A type annotation.
    fn parse_ty(&mut self) -> (r: Result<ExpectedType, ParseError>)
        ensures
            final(self)@.len() <= old(self)@.len(),
            final(self).lex_ok() == old(self).lex_ok(),
        decreases old(self)@.len(), 14int,
    {
        self.fntype()
    }

    /// A chain of `->`, associating to the right: `a -> b -> c` is
    /// `a -> (b -> c)`.
    fn fntype(&mut self) -> (r: Result<ExpectedType, ParseError>)
        ensures
            final(self)@.len() <= old(self)@.len(),
            final(self).lex_ok() == old(self).lex_ok(),
        decreases old(self)@.len(), 13int,
    {
        let first = match self.primitive_type() {
            Ok(t) => t,
            Err(e) => {
                return Err(e);
            },
        };
        if self.consume(&sym("->")) {
            match self.fntype() {
                Ok(rest) => Ok(ExpectedType::func(first, rest)),
                Err(e) => Err(e),
            }
        } else {
            Ok(first)
        }
    }

    /// A primitive type, or a parenthesised type annotation.
    fn primitive_type(&mut self) -> (r: Result<ExpectedType, ParseError>)
        ensures
            final(self)@.len() <= old(self)@.len(),
            final(self).lex_ok() == old(self).lex_ok(),
        decreases old(self)@.len(), 12int,
    {
        if self.consume(&sym("(")) {
            let inner = match self.parse_ty() {
                Ok(t) => t,
                Err(e) => {
                    return Err(e);
                },
            };
            match self.expect(&sym(")")) {
                Ok(()) => Ok(inner),
                Err(e) => Err(e),
            }
        } else {
            match self.tokens.pop() {
                Some(Token::Type(val)) => {
                    proof {
                        assert(self@ =~= old(self)@.skip(1));
                    }
                    if val.eq(&String::from_str("int")) {
                        Ok(ExpectedType::Int)
                    } else if val.eq(&String::from_str("bool")) {
                        Ok(ExpectedType::Bool)
                    } else {
                        Err(ParseError::NotAType)
                    }
                },
                Some(_) => {
                    proof {
                        assert(self@ =~= old(self)@.skip(1));
                    }
                    Err(ParseError::NotAType)
                },
                None => Err(ParseError::NotAType),
            }
        }
    }
}

} // verus!
