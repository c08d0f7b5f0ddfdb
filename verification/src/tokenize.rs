//! The lexical scanner: source text to a flat token sequence.
//!
//! The scanner reads the input character by character.  A run of
//! decimal digits becomes an integer token (too large a literal makes
//! the whole scan fail); a bracket becomes a one-character symbol; any
//! other run of punctuation becomes one symbol; a run of letters and
//! digits starting with a letter becomes a keyword, a type word, or an
//! identifier.  Every other character — whitespace included — is
//! skipped.

use vstd::prelude::*;
use crate::render::{dec_digits, digit_char};

verus! {

/// A token of the surface syntax.
#[derive(Clone, Debug, PartialEq, Eq)]
pub enum Token {
    Int(i64),
    Symbol(String),
    Keyword(String),
    Type(String),
    Ident(String),
}

/// Mathematical model of a token, its text as a character sequence.
pub enum TokenView {
    Int(i64),
    Symbol(Seq<char>),
    Keyword(Seq<char>),
    Type(Seq<char>),
    Ident(Seq<char>),
}

impl View for Token {
    type V = TokenView;

    open spec fn view(&self) -> TokenView {
        match self {
            Token::Int(v) => TokenView::Int(*v),
            Token::Symbol(s) => TokenView::Symbol(s@),
            Token::Keyword(s) => TokenView::Keyword(s@),
            Token::Type(s) => TokenView::Type(s@),
            Token::Ident(s) => TokenView::Ident(s@),
        }
    }
}

/// The models of a token sequence.
pub open spec fn tokens_view(v: Seq<Token>) -> Seq<TokenView> {
    v.map_values(|t: Token| t@)
}

/// An ASCII decimal digit.
pub open spec fn is_digit_char(c: char) -> bool {
    '0' <= c && c <= '9'
}

/// An ASCII punctuation character.
pub open spec fn is_punct_char(c: char) -> bool {
    ('!' <= c && c <= '/') || (':' <= c && c <= '@') || ('[' <= c && c <= '`') || ('{' <= c
        && c <= '~')
}

/// An ASCII letter.
pub open spec fn is_alpha_char(c: char) -> bool {
    ('A' <= c && c <= 'Z') || ('a' <= c && c <= 'z')
}

/// An ASCII letter or digit.
pub open spec fn is_alnum_char(c: char) -> bool {
    is_alpha_char(c) || is_digit_char(c)
}

/// A bracket, always a one-character symbol of its own.
pub open spec fn is_paren_char(c: char) -> bool {
    c == '(' || c == ')' || c == '{' || c == '}' || c == '[' || c == ']'
}

/// A punctuation character that may join an operator run: any ASCII
/// punctuation except a bracket, so that brackets always stand alone.
pub open spec fn is_opchar(c: char) -> bool {
    is_punct_char(c) && !is_paren_char(c)
}

/// A reserved word of the language.
pub open spec fn is_keyword(w: Seq<char>) -> bool {
    ||| w == "true"@
    ||| w == "false"@
    ||| w == "if"@
    ||| w == "else"@
    ||| w == "let"@
    ||| w == "lambda"@
}

/// A primitive type word.
pub open spec fn is_type_word(w: Seq<char>) -> bool {
    w == "int"@ || w == "bool"@
}

/// The first position at or after `i` that is not a digit (or the
/// end of the input).
pub open spec fn digit_run_end(chars: Seq<char>, i: int) -> int
    decreases chars.len() - i,
{
    if i < 0 || i >= chars.len() || !is_digit_char(chars[i]) {
        i
    } else {
        digit_run_end(chars, i + 1)
    }
}

/// The first position at or after `i` that is not an operator
/// character (or the end of the input).
pub open spec fn punct_run_end(chars: Seq<char>, i: int) -> int
    decreases chars.len() - i,
{
    if i < 0 || i >= chars.len() || !is_opchar(chars[i]) {
        i
    } else {
        punct_run_end(chars, i + 1)
    }
}

/// The first position at or after `i` that is neither letter nor
/// digit (or the end of the input).
pub open spec fn alnum_run_end(chars: Seq<char>, i: int) -> int
    decreases chars.len() - i,
{
    if i < 0 || i >= chars.len() || !is_alnum_char(chars[i]) {
        i
    } else {
        alnum_run_end(chars, i + 1)
    }
}

/// Any position with digits from `i` up to it and none at it is
/// exactly [`digit_run_end`].
pub proof fn lemma_digit_run_end(chars: Seq<char>, i: int, j: int)
    requires
        0 <= i <= j <= chars.len(),
        forall|k: int| i <= k < j ==> is_digit_char(#[trigger] chars[k]),
        j == chars.len() || !is_digit_char(chars[j]),
    ensures
        digit_run_end(chars, i) == j,
    decreases j - i,
{
    if i < j {
        lemma_digit_run_end(chars, i + 1, j);
    }
}

/// Any position with operator characters from `i` up to it and none
/// at it is exactly [`punct_run_end`].
pub proof fn lemma_punct_run_end(chars: Seq<char>, i: int, j: int)
    requires
        0 <= i <= j <= chars.len(),
        forall|k: int| i <= k < j ==> is_opchar(#[trigger] chars[k]),
        j == chars.len() || !is_opchar(chars[j]),
    ensures
        punct_run_end(chars, i) == j,
    decreases j - i,
{
    if i < j {
        lemma_punct_run_end(chars, i + 1, j);
    }
}

/// Any position with word characters from `i` up to it and none at it
/// is exactly [`alnum_run_end`].
pub proof fn lemma_alnum_run_end(chars: Seq<char>, i: int, j: int)
    requires
        0 <= i <= j <= chars.len(),
        forall|k: int| i <= k < j ==> is_alnum_char(#[trigger] chars[k]),
        j == chars.len() || !is_alnum_char(chars[j]),
    ensures
        alnum_run_end(chars, i) == j,
    decreases j - i,
{
    if i < j {
        lemma_alnum_run_end(chars, i + 1, j);
    }
}

/// The run end never moves backwards and never leaves the input.
pub proof fn lemma_run_ends_bounds(chars: Seq<char>, i: int)
    requires
        0 <= i <= chars.len(),
    ensures
        i <= digit_run_end(chars, i) <= chars.len(),
        i <= punct_run_end(chars, i) <= chars.len(),
        i <= alnum_run_end(chars, i) <= chars.len(),
    decreases chars.len() - i,
{
    if i < chars.len() {
        lemma_run_ends_bounds(chars, i + 1);
    }
}

/// The numeric value of a digit character.
pub open spec fn digit_val(c: char) -> int {
    c as int - '0' as int
}

/// The value of the decimal digits `chars[i..j]`.
pub open spec fn digits_value(chars: Seq<char>, i: int, j: int) -> int
    decreases j - i,
{
    if j <= i {
        0
    } else {
        digits_value(chars, i, j - 1) * 10 + digit_val(chars[j - 1])
    }
}

/// A digit string's value is never negative.
pub proof fn lemma_digits_value_nonneg(chars: Seq<char>, i: int, j: int)
    requires
        forall|k: int| i <= k < j ==> is_digit_char(#[trigger] chars[k]),
    ensures
        digits_value(chars, i, j) >= 0,
    decreases j - i,
{
    if j > i {
        lemma_digits_value_nonneg(chars, i, j - 1);
    }
}

/// Extending a digit string never shrinks its value.
pub proof fn lemma_digits_value_mono(chars: Seq<char>, i: int, j: int, j2: int)
    requires
        j <= j2,
        forall|k: int| i <= k < j2 ==> is_digit_char(#[trigger] chars[k]),
    ensures
        digits_value(chars, i, j) <= digits_value(chars, i, j2),
    decreases j2 - j,
{
    if j < j2 {
        lemma_digits_value_mono(chars, i, j, j2 - 1);
        lemma_digits_value_nonneg(chars, i, j2 - 1);
    }
}

/// The spec scanner: the tokens of `chars[i..]`, or `None` when an
/// integer literal exceeds the 64-bit signed range.
pub open spec fn spec_tokenize(chars: Seq<char>, i: int) -> Option<Seq<TokenView>>
    decreases chars.len() - i,
{
    if i < 0 || i >= chars.len() {
        Some(Seq::empty())
    } else {
        let c = chars[i];
        if is_digit_char(c) {
            let j = digit_run_end(chars, i);
            let v = digits_value(chars, i, j);
            proof {
                lemma_run_ends_bounds(chars, i + 1);
            }
            if v > i64::MAX {
                None
            } else {
                match spec_tokenize(chars, j) {
                    None => None,
                    Some(rest) => Some(seq![TokenView::Int(v as i64)] + rest),
                }
            }
        } else if is_punct_char(c) {
            if is_paren_char(c) {
                match spec_tokenize(chars, i + 1) {
                    None => None,
                    Some(rest) => Some(seq![TokenView::Symbol(seq![c])] + rest),
                }
            } else {
                let j = punct_run_end(chars, i);
                proof {
                    lemma_run_ends_bounds(chars, i + 1);
                }
                match spec_tokenize(chars, j) {
                    None => None,
                    Some(rest) => Some(seq![TokenView::Symbol(chars.subrange(i, j))] + rest),
                }
            }
        } else if is_alpha_char(c) {
            let j = alnum_run_end(chars, i);
            proof {
                lemma_run_ends_bounds(chars, i + 1);
            }
            let w = chars.subrange(i, j);
            let tok = if is_keyword(w) {
                TokenView::Keyword(w)
            } else if is_type_word(w) {
                TokenView::Type(w)
            } else {
                TokenView::Ident(w)
            };
            match spec_tokenize(chars, j) {
                None => None,
                Some(rest) => Some(seq![tok] + rest),
            }
        } else {
            spec_tokenize(chars, i + 1)
        }
    }
}

/// Compares two string slices character for character.
fn str_eq(a: &str, b: &str) -> (r: bool)
    ensures
        r == (a@ == b@),
{
    let sa = String::from_str(a);
    let sb = String::from_str(b);
    sa.eq(&sb)
}

/// Whether `c` is an ASCII decimal digit.
fn char_is_digit(c: char) -> (r: bool)
    ensures
        r == is_digit_char(c),
{
    let u = c as u32;
    48 <= u && u <= 57
}

/// Whether `c` is ASCII punctuation.
fn char_is_punct(c: char) -> (r: bool)
    ensures
        r == is_punct_char(c),
{
    let u = c as u32;
    (33 <= u && u <= 47) || (58 <= u && u <= 64) || (91 <= u && u <= 96) || (123 <= u && u
        <= 126)
}

/// Whether `c` is an ASCII letter.
fn char_is_alpha(c: char) -> (r: bool)
    ensures
        r == is_alpha_char(c),
{
    let u = c as u32;
    (65 <= u && u <= 90) || (97 <= u && u <= 122)
}

/// Whether `c` is an ASCII letter or digit.
fn char_is_alnum(c: char) -> (r: bool)
    ensures
        r == is_alnum_char(c),
{
    char_is_alpha(c) || char_is_digit(c)
}

/// Whether `c` is a bracket.
fn char_is_paren(c: char) -> (r: bool)
    ensures
        r == is_paren_char(c),
{
    let u = c as u32;
    u == 40 || u == 41 || u == 123 || u == 125 || u == 91 || u == 93
}

/// Whether `c` may join an operator run.
fn char_is_op(c: char) -> (r: bool)
    ensures
        r == is_opchar(c),
{
    char_is_punct(c) && !char_is_paren(c)
}

/// The lexical scanner over one input string.
pub struct Tokenizer<'a> {
    input: &'a str,
}

impl<'a> View for Tokenizer<'a> {
    type V = Seq<char>;

    closed spec fn view(&self) -> Seq<char> {
        self.input@
    }
}

impl<'a> Tokenizer<'a> {
    /// A scanner over `input`.
    pub fn new(input: &'a str) -> (t: Tokenizer<'a>)
        ensures
            t@ == input@,
    {
        Tokenizer { input }
    }

    /// Scans the whole input; returns exactly the tokens of
    /// [`spec_tokenize`], or `None` when an integer literal exceeds
    /// the 64-bit signed range.
    #[verifier::loop_isolation(false)]
    #[verifier::rlimit(60)]
    pub fn tokenize(&self) -> (r: Option<Vec<Token>>)
        ensures
            match r {
                Some(v) => spec_tokenize(self@, 0) matches Some(toks) && tokens_view(v@)
                    == toks,
                None => spec_tokenize(self@, 0) is None,
            },
    {
        let n = self.input.unicode_len();
        let mut chars: Vec<char> = Vec::new();
        let mut ci: usize = 0;
        while ci < n
            invariant
                ci <= n,
                n == self.input@.len(),
                chars@ == self.input@.take(ci as int),
            decreases n - ci,
        {
            chars.push(self.input.get_char(ci));
            proof {
                assert(chars@ =~= self.input@.take(ci as int + 1));
            }
            ci = ci + 1;
        }
        proof {
            assert(chars@ =~= self.input@);
        }
        let clen = chars.len();
        let mut ret: Vec<Token> = Vec::new();
        let mut i: usize = 0;
        loop
            invariant
                i <= clen,
                (spec_tokenize(chars@, 0) is Some <==> spec_tokenize(chars@, i as int)
                    is Some),
                spec_tokenize(chars@, 0) matches Some(all) ==> (spec_tokenize(
                    chars@,
                    i as int,
                ) matches Some(rest) && all == tokens_view(ret@) + rest),
            decreases clen - i,
        {
            if i >= clen {
                proof {
                    assert(spec_tokenize(chars@, i as int) == Some(Seq::<TokenView>::empty()));
                    if spec_tokenize(chars@, 0) matches Some(all) {
                        assert(tokens_view(ret@) + Seq::<TokenView>::empty() =~= tokens_view(
                            ret@,
                        ));
                    }
                }
                return Some(ret);
            }
            let c = chars[i];
            let ghost prev_ret = ret@;
            if char_is_digit(c) {
                let mut j = i + 1;
                while j < clen && char_is_digit(chars[j])
                    invariant
                        i < j <= clen,
                        forall|k: int| i <= k < j ==> is_digit_char(#[trigger] chars@[k]),
                    decreases clen - j,
                {
                    j = j + 1;
                }
                proof {
                    lemma_digit_run_end(chars@, i as int, j as int);
                }
                let mut acc: i64 = 0;
                let mut k = i;
                while k < j
                    invariant
                        i <= k <= j,
                        acc == digits_value(chars@, i as int, k as int),
                        acc >= 0,
                    decreases j - k,
                {
                    let d = ((chars[k] as u32) - 48) as i64;
                    let stepped = match acc.checked_mul(10) {
                        Some(m) => m.checked_add(d),
                        None => None,
                    };
                    match stepped {
                        Some(v) => {
                            acc = v;
                        },
                        None => {
                            proof {
                                lemma_digits_value_mono(
                                    chars@,
                                    i as int,
                                    k as int + 1,
                                    j as int,
                                );
                            }
                            return None;
                        },
                    }
                    k = k + 1;
                }
                ret.push(Token::Int(acc));
                proof {
                    assert(tokens_view(ret@) =~= tokens_view(prev_ret).push(
                        TokenView::Int(acc),
                    ));
                    if spec_tokenize(chars@, 0) matches Some(all) {
                        let rest = spec_tokenize(chars@, j as int)->Some_0;
                        assert(tokens_view(prev_ret) + (seq![TokenView::Int(acc)] + rest)
                            =~= tokens_view(ret@) + rest);
                    }
                }
                i = j;
            } else if char_is_punct(c) {
                if char_is_paren(c) {
                    let text = self.input.substring_char(i, i + 1);
                    proof {
                        assert(text@ =~= seq![c]);
                    }
                    ret.push(Token::Symbol(String::from_str(text)));
                    proof {
                        assert(tokens_view(ret@) =~= tokens_view(prev_ret).push(
                            TokenView::Symbol(seq![c]),
                        ));
                        if spec_tokenize(chars@, 0) matches Some(all) {
                            let rest = spec_tokenize(chars@, i as int + 1)->Some_0;
                            assert(tokens_view(prev_ret) + (seq![TokenView::Symbol(seq![c])]
                                + rest) =~= tokens_view(ret@) + rest);
                        }
                    }
                    i = i + 1;
                } else {
                    let mut j = i + 1;
                    while j < clen && char_is_op(chars[j])
                        invariant
                            i < j <= clen,
                            forall|k: int| i <= k < j ==> is_opchar(#[trigger] chars@[k]),
                        decreases clen - j,
                    {
                        j = j + 1;
                    }
                    proof {
                        lemma_punct_run_end(chars@, i as int, j as int);
                    }
                    let text = self.input.substring_char(i, j);
                    ret.push(Token::Symbol(String::from_str(text)));
                    proof {
                        assert(tokens_view(ret@) =~= tokens_view(prev_ret).push(
                            TokenView::Symbol(chars@.subrange(i as int, j as int)),
                        ));
                        if spec_tokenize(chars@, 0) matches Some(all) {
                            let rest = spec_tokenize(chars@, j as int)->Some_0;
                            assert(tokens_view(prev_ret) + (seq![TokenView::Symbol(
                                chars@.subrange(i as int, j as int),
                            )] + rest) =~= tokens_view(ret@) + rest);
                        }
                    }
                    i = j;
                }
            } else if char_is_alpha(c) {
                let mut j = i + 1;
                while j < clen && char_is_alnum(chars[j])
                    invariant
                        i < j <= clen,
                        forall|k: int| i <= k < j ==> is_alnum_char(#[trigger] chars@[k]),
                    decreases clen - j,
                {
                    j = j + 1;
                }
                proof {
                    lemma_alnum_run_end(chars@, i as int, j as int);
                }
                let text = self.input.substring_char(i, j);
                let word = String::from_str(text);
                let tok = if str_eq(text, "true") || str_eq(text, "false") || str_eq(
                    text,
                    "if",
                ) || str_eq(text, "else") || str_eq(text, "let") || str_eq(text, "lambda") {
                    Token::Keyword(word)
                } else if str_eq(text, "int") || str_eq(text, "bool") {
                    Token::Type(word)
                } else {
                    Token::Ident(word)
                };
                ret.push(tok);
                proof {
                    let w = chars@.subrange(i as int, j as int);
                    let tokv = if is_keyword(w) {
                        TokenView::Keyword(w)
                    } else if is_type_word(w) {
                        TokenView::Type(w)
                    } else {
                        TokenView::Ident(w)
                    };
                    assert(tokens_view(ret@) =~= tokens_view(prev_ret).push(tokv));
                    if spec_tokenize(chars@, 0) matches Some(all) {
                        let rest = spec_tokenize(chars@, j as int)->Some_0;
                        assert(tokens_view(prev_ret) + (seq![tokv] + rest) =~= tokens_view(
                            ret@,
                        ) + rest);
                    }
                }
                i = j;
            } else {
                i = i + 1;
            }
        }
    }
}

/// Decimal renderings consist of digits only, at least one.
proof fn lemma_dec_digits_are_digits(n: nat)
    ensures
        dec_digits(n).len() >= 1,
        forall|k: int|
            0 <= k < dec_digits(n).len() ==> is_digit_char(#[trigger] dec_digits(n)[k]),
    decreases n,
{
    if n >= 10 {
        lemma_dec_digits_are_digits(n / 10);
    }
}

/// The scanned value of a digit string depends only on the digits
/// read.
proof fn lemma_digits_value_same(s1: Seq<char>, s2: Seq<char>, i: int, j: int)
    requires
        forall|k: int| i <= k < j ==> s1[k] == s2[k],
    ensures
        digits_value(s1, i, j) == digits_value(s2, i, j),
    decreases j - i,
{
    if j > i {
        lemma_digits_value_same(s1, s2, i, j - 1);
    }
}

/// Scanning the decimal rendering of `n` yields `n` back.
proof fn lemma_digits_value_of_dec_digits(n: nat)
    ensures
        digits_value(dec_digits(n), 0, dec_digits(n).len() as int) == n,
    decreases n,
{
    let s = dec_digits(n);
    if n < 10 {
        assert(digits_value(s, 0, 0) == 0);
        assert(digits_value(s, 0, 1) == digit_val(digit_char(n)));
    } else {
        lemma_digits_value_of_dec_digits(n / 10);
        let prefix = dec_digits(n / 10);
        let plen = prefix.len() as int;
        lemma_digits_value_same(prefix, s, 0, plen);
        assert(digits_value(s, 0, plen + 1) == digits_value(s, 0, plen) * 10 + digit_val(
            s[plen],
        ));
    }
}

/// One piece of the render-then-rescan round trip: the decimal
/// rendering of a non-negative integer scans back to exactly its
/// integer token.
pub proof fn lemma_tokenize_rendered_integer(v: i64)
    requires
        v >= 0,
    ensures
        spec_tokenize(crate::render::i64_dec(v as int), 0) == Some(
            seq![TokenView::Int(v)],
        ),
{
    let chars = dec_digits(v as nat);
    lemma_dec_digits_are_digits(v as nat);
    lemma_digit_run_end(chars, 0, chars.len() as int);
    lemma_digits_value_of_dec_digits(v as nat);
    assert(spec_tokenize(chars, chars.len() as int) == Some(Seq::<TokenView>::empty()));
    assert(seq![TokenView::Int(v)] + Seq::<TokenView>::empty() =~= seq![TokenView::Int(v)]);
}

} // verus!
