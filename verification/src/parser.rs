//! The lexer and parser: source text to a flat token stream, and the
//! token stream to a sequence of expressions with eagerly resolved
//! call targets.

use vstd::prelude::*;

use crate::error::{EggError, EggResult};
use crate::expression::{expr_view, exprs_view, Callee, CalleeV, ExprV, Expression, Value, ValueV};
use crate::numbers::{
    ascii_chars_of, digits_end_spec, is_integer_numeral, numeral_value, parse_integer,
};
use crate::operators::{Builtin, OperatorSet};

use vstd::string::StrSliceExecFns;
use vstd::string::StringExecFns;

verus! {

/// Whitespace: blank, tab, carriage return or newline.
pub open spec fn is_space(c: char) -> bool {
    c as u32 == 32 || c as u32 == 9 || c as u32 == 13 || c as u32 == 10
}

/// A word character: anything but whitespace, brackets, the comma,
/// the comment mark and the quote. Words are the catch-all token.
pub open spec fn is_word_char(c: char) -> bool {
    !is_space(c) && c as u32 != 40 && c as u32 != 41 && c as u32 != 44 && c as u32 != 35
        && c as u32 != 34
}

/// First position at or after `i` that no whitespace, comma or line
/// comment covers.
pub open spec fn skip_ws(s: Seq<char>, i: int) -> int
    decreases s.len() - i, 0int,
{
    if 0 <= i < s.len() {
        if is_space(s[i]) || s[i] as u32 == 44 {
            skip_ws(s, i + 1)
        } else if s[i] as u32 == 35 {
            skip_comment(s, i + 1)
        } else {
            i
        }
    } else {
        i
    }
}

/// Position resuming the scan after a line comment: at the character
/// following the next newline, or the end of the text.
pub open spec fn skip_comment(s: Seq<char>, i: int) -> int
    decreases s.len() - i, 1int,
{
    if 0 <= i < s.len() {
        if s[i] as u32 == 10 {
            skip_ws(s, i + 1)
        } else {
            skip_comment(s, i + 1)
        }
    } else {
        i
    }
}

/// End of the run of word characters that starts at `i`.
pub open spec fn word_end(s: Seq<char>, i: int) -> int
    decreases s.len() - i,
{
    if 0 <= i < s.len() && is_word_char(s[i]) {
        word_end(s, i + 1)
    } else {
        i
    }
}

/// Position of the closing quote of a string literal, scanning from
/// `i`; -1 when the line or the text ends first.
pub open spec fn quote_end(s: Seq<char>, i: int) -> int
    decreases s.len() - i,
{
    if 0 <= i < s.len() {
        if s[i] as u32 == 34 {
            i
        } else if s[i] as u32 == 10 {
            -1
        } else {
            quote_end(s, i + 1)
        }
    } else {
        -1
    }
}

/// End of the longest number-shaped run starting at `i`: an optional
/// minus, digits, an optional fraction and an optional exponent; `i`
/// itself when no number starts there.
pub open spec fn number_end(s: Seq<char>, i: int) -> int {
    let ms = if 0 <= i < s.len() && s[i] as u32 == 45 {
        i + 1
    } else {
        i
    };
    let d1 = digits_end_spec(s, ms);
    if d1 == ms {
        i
    } else {
        let d2 = if d1 < s.len() && s[d1] as u32 == 46 && digits_end_spec(s, d1 + 1) > d1 + 1 {
            digits_end_spec(s, d1 + 1)
        } else {
            d1
        };
        if d2 < s.len() && (s[d2] as u32 == 101 || s[d2] as u32 == 69) {
            let es = if d2 + 1 < s.len() && s[d2 + 1] as u32 == 45 {
                d2 + 2
            } else {
                d2 + 1
            };
            if digits_end_spec(s, es) > es {
                digits_end_spec(s, es)
            } else {
                d2
            }
        } else {
            d2
        }
    }
}

/// `skip_ws` and `skip_comment` stay within the text.
pub proof fn lemma_skip_bounds(s: Seq<char>, i: int)
    requires
        0 <= i <= s.len(),
    ensures
        i <= skip_ws(s, i) <= s.len(),
        i <= skip_comment(s, i) <= s.len(),
    decreases s.len() - i,
{
    if i < s.len() {
        lemma_skip_bounds(s, i + 1);
    }
}

/// `word_end` stays within the text.
pub proof fn lemma_word_end_bounds(s: Seq<char>, i: int)
    requires
        0 <= i <= s.len(),
    ensures
        i <= word_end(s, i) <= s.len(),
    decreases s.len() - i,
{
    if i < s.len() && is_word_char(s[i]) {
        lemma_word_end_bounds(s, i + 1);
    }
}

/// `quote_end` is -1 or a position within the text.
pub proof fn lemma_quote_end_bounds(s: Seq<char>, i: int)
    requires
        0 <= i <= s.len(),
    ensures
        quote_end(s, i) == -1 || i <= quote_end(s, i) < s.len(),
    decreases s.len() - i,
{
    if i < s.len() && s[i] as u32 != 34 && s[i] as u32 != 10 {
        lemma_quote_end_bounds(s, i + 1);
    }
}

/// `number_end` stays at `i` or moves forward within the text.
pub proof fn lemma_number_end_bounds(s: Seq<char>, i: int)
    requires
        0 <= i <= s.len(),
    ensures
        number_end(s, i) == i || i < number_end(s, i) <= s.len(),
{
    crate::numbers::lemma_digits_end_bounds(s, i);
    if 0 <= i < s.len() && s[i] as u32 == 45 {
        crate::numbers::lemma_digits_end_bounds(s, i + 1);
    }
    let ms = if 0 <= i < s.len() && s[i] as u32 == 45 {
        i + 1
    } else {
        i
    };
    let d1 = digits_end_spec(s, ms);
    if d1 != ms {
        if d1 + 1 <= s.len() {
            crate::numbers::lemma_digits_end_bounds(s, d1 + 1);
        }
        let d2 = if d1 < s.len() && s[d1] as u32 == 46 && digits_end_spec(s, d1 + 1) > d1 + 1 {
            digits_end_spec(s, d1 + 1)
        } else {
            d1
        };
        if d2 + 1 <= s.len() {
            crate::numbers::lemma_digits_end_bounds(s, d2 + 1);
        }
        if d2 + 2 <= s.len() {
            crate::numbers::lemma_digits_end_bounds(s, d2 + 2);
        }
    }
}

/// One token of the flat stream, as the lexer yields it.
#[derive(Debug)]
pub enum Token {
    /// A numeric literal.
    Number(i64),
    /// The contents of a string literal, quotes stripped.
    Text(String),
    /// `True` or `False`.
    Boolean(bool),
    /// A bare word.
    Word(String),
    /// `(`.
    Open,
    /// `)`.
    Close,
}

/// Mathematical model of a [`Token`].
pub enum TokenV {
    Number(int),
    Text(Seq<char>),
    Boolean(bool),
    Word(Seq<char>),
    Open,
    Close,
}

impl View for Token {
    type V = TokenV;

    open spec fn view(&self) -> TokenV {
        match self {
            Token::Number(n) => TokenV::Number(*n as int),
            Token::Text(t) => TokenV::Text(t@),
            Token::Boolean(b) => TokenV::Boolean(*b),
            Token::Word(w) => TokenV::Word(w@),
            Token::Open => TokenV::Open,
            Token::Close => TokenV::Close,
        }
    }
}

/// The token stream of the text from position `i` on: each token with
/// the position it starts at, or the text of the piece that cannot be
/// classified.
pub open spec fn lex_from(s: Seq<char>, i: int) -> Result<Seq<(TokenV, int)>, Seq<char>>
    decreases s.len() - i,
    via lex_from_decreases
{
    let j = skip_ws(s, i);
    if !(0 <= i <= s.len()) {
        Ok(Seq::empty())
    } else if j >= s.len() {
        Ok(Seq::empty())
    } else if s[j] as u32 == 40 {
        match lex_from(s, j + 1) {
            Ok(rest) => Ok(seq![(TokenV::Open, j)] + rest),
            Err(t) => Err(t),
        }
    } else if s[j] as u32 == 41 {
        match lex_from(s, j + 1) {
            Ok(rest) => Ok(seq![(TokenV::Close, j)] + rest),
            Err(t) => Err(t),
        }
    } else if s[j] as u32 == 34 {
        let q = quote_end(s, j + 1);
        if q < 0 {
            Err(s.subrange(j, s.len() as int))
        } else {
            match lex_from(s, q + 1) {
                Ok(rest) => Ok(seq![(TokenV::Text(s.subrange(j + 1, q)), j)] + rest),
                Err(t) => Err(t),
            }
        }
    } else if number_end(s, j) > j {
        let e = number_end(s, j);
        let text = s.subrange(j, e);
        if is_integer_numeral(text) && i64::MIN <= numeral_value(text) <= i64::MAX {
            match lex_from(s, e) {
                Ok(rest) => Ok(seq![(TokenV::Number(numeral_value(text)), j)] + rest),
                Err(t) => Err(t),
            }
        } else {
            Err(text)
        }
    } else {
        let w = word_end(s, j);
        if w == j {
            Err(s.subrange(j, j + 1))
        } else {
            let text = s.subrange(j, w);
            let tok = if text == "True"@ {
                TokenV::Boolean(true)
            } else if text == "False"@ {
                TokenV::Boolean(false)
            } else {
                TokenV::Word(text)
            };
            match lex_from(s, w) {
                Ok(rest) => Ok(seq![(tok, j)] + rest),
                Err(t) => Err(t),
            }
        }
    }
}

#[via_fn]
proof fn lex_from_decreases(s: Seq<char>, i: int) {
    if 0 <= i <= s.len() {
        lemma_skip_bounds(s, i);
        let j = skip_ws(s, i);
        if j < s.len() {
            lemma_quote_end_bounds(s, j + 1);
            lemma_number_end_bounds(s, j);
            lemma_word_end_bounds(s, j);
        }
    }
}

/// Skipping stops only at a character that starts a token.
pub proof fn lemma_skip_stops(s: Seq<char>, i: int)
    requires
        0 <= i <= s.len(),
    ensures
        skip_ws(s, i) < s.len() ==> !is_space(s[skip_ws(s, i)]) && s[skip_ws(s, i)] as u32 != 44
            && s[skip_ws(s, i)] as u32 != 35,
        skip_comment(s, i) < s.len() ==> !is_space(s[skip_comment(s, i)]) && s[skip_comment(
            s,
            i,
        )] as u32 != 44 && s[skip_comment(s, i)] as u32 != 35,
    decreases s.len() - i,
{
    if i < s.len() {
        lemma_skip_stops(s, i + 1);
    }
}

/// Whether a newline stands at `j`.
fn is_newline_at(chars: &Vec<char>, j: usize) -> (res: bool)
    requires
        j < chars@.len(),
    ensures
        res == (chars@[j as int] as u32 == 10),
{
    chars[j] as u32 == 10
}

/// Whether a word character stands at `j`.
fn is_word_char_at(chars: &Vec<char>, j: usize) -> (res: bool)
    requires
        j < chars@.len(),
    ensures
        res == is_word_char(chars@[j as int]),
{
    let c = chars[j] as u32;
    !(c == 32 || c == 9 || c == 13 || c == 10) && c != 40 && c != 41 && c != 44 && c != 35 && c
        != 34
}

/// First position at or after `i` that no whitespace, comma or line
/// comment covers.
fn skip_ws_at(chars: &Vec<char>, i: usize) -> (res: usize)
    requires
        i <= chars@.len(),
    ensures
        res == skip_ws(chars@, i as int),
        i <= res <= chars@.len(),
{
    proof {
        lemma_skip_bounds(chars@, i as int);
    }
    let mut j = i;
    let mut done = false;
    while !done
        invariant
            i <= j <= chars@.len(),
            skip_ws(chars@, i as int) == if done {
                j as int
            } else {
                skip_ws(chars@, j as int)
            },
        decreases chars@.len() - j + if done {
            0int
        } else {
            1int
        },
    {
        if j >= chars.len() {
            done = true;
        } else {
            let c = chars[j] as u32;
            if c == 32 || c == 9 || c == 13 || c == 10 || c == 44 {
                j = j + 1;
            } else if c == 35 {
                j = j + 1;
                let ghost j0 = j;
                while j < chars.len() && !is_newline_at(chars, j)
                    invariant
                        i <= j <= chars@.len(),
                        j0 <= j,
                        skip_ws(chars@, i as int) == skip_comment(chars@, j as int),
                    decreases chars@.len() - j,
                {
                    j = j + 1;
                }
                if j < chars.len() {
                    j = j + 1;
                } else {
                    done = true;
                }
            } else {
                done = true;
            }
        }
    }
    j
}

/// End of the run of word characters that starts at `i`.
fn word_end_at(chars: &Vec<char>, i: usize) -> (res: usize)
    requires
        i <= chars@.len(),
    ensures
        res == word_end(chars@, i as int),
        i <= res <= chars@.len(),
{
    let mut j = i;
    while j < chars.len() && is_word_char_at(chars, j)
        invariant
            i <= j <= chars@.len(),
            word_end(chars@, i as int) == word_end(chars@, j as int),
        decreases chars@.len() - j,
    {
        j = j + 1;
    }
    j
}

/// Position of the closing quote of a string literal, scanning from
/// `i`; `None` when the line or the text ends first.
fn quote_end_at(chars: &Vec<char>, i: usize) -> (res: Option<usize>)
    requires
        i <= chars@.len(),
    ensures
        match res {
            Some(q) => quote_end(chars@, i as int) == q && i <= q < chars@.len(),
            None => quote_end(chars@, i as int) == -1,
        },
{
    let mut j = i;
    loop
        invariant
            i <= j <= chars@.len(),
            quote_end(chars@, i as int) == quote_end(chars@, j as int),
        decreases chars@.len() - j,
    {
        if j >= chars.len() {
            return None;
        }
        let c = chars[j] as u32;
        if c == 34 {
            proof {
                lemma_quote_end_bounds(chars@, i as int);
            }
            return Some(j);
        }
        if c == 10 {
            return None;
        }
        j = j + 1;
    }
}

/// End of the longest number-shaped run starting at `i`; `i` itself
/// when no number starts there.
fn number_end_at(chars: &Vec<char>, i: usize) -> (res: usize)
    requires
        i <= chars@.len(),
    ensures
        res == number_end(chars@, i as int),
        i <= res <= chars@.len(),
{
    proof {
        lemma_number_end_bounds(chars@, i as int);
    }
    let ms = if i < chars.len() && (chars[i] as u32) == 45 {
        i + 1
    } else {
        i
    };
    let d1 = crate::numbers::digits_end(chars, ms);
    if d1 == ms {
        return i;
    }
    let d2 = if d1 < chars.len() && (chars[d1] as u32) == 46 {
        let f = crate::numbers::digits_end(chars, d1 + 1);
        if f > d1 + 1 {
            f
        } else {
            d1
        }
    } else {
        d1
    };
    if d2 < chars.len() && ((chars[d2] as u32) == 101 || (chars[d2] as u32) == 69) {
        let es = if d2 + 1 < chars.len() && (chars[d2 + 1] as u32) == 45 {
            d2 + 2
        } else {
            d2 + 1
        };
        let e = crate::numbers::digits_end(chars, es);
        if e > es {
            e
        } else {
            d2
        }
    } else {
        d2
    }
}

/// The token stream continues correctly: what is already read, joined
/// with what lexing yields from position `i`, is what lexing the whole
/// text yields.
pub open spec fn lex_continues(s: Seq<char>, done: Seq<(TokenV, int)>, i: int) -> bool {
    match lex_from(s, i) {
        Ok(rest) => lex_from(s, 0) == Ok::<Seq<(TokenV, int)>, Seq<char>>(done + rest),
        Err(t) => lex_from(s, 0) == Err::<Seq<(TokenV, int)>, Seq<char>>(t),
    }
}

/// The models of a token stream.
pub open spec fn token_views(ts: Seq<(Token, usize)>) -> Seq<(TokenV, int)> {
    ts.map_values(|p: (Token, usize)| (p.0@, p.1 as int))
}

/// Converts source text into the flat token stream, classifying
/// strings, numbers, booleans, brackets and words, and discarding
/// whitespace, commas and line comments. Fails with `UnknownToken`
/// exactly where no classification fits: an unterminated string
/// literal, or a number that does not denote an integer of the value
/// model.
pub fn tokenize(script: &str) -> (res: Result<Vec<(Token, usize)>, EggError>)
    requires
        script.is_ascii(),
    ensures
        match res {
            Ok(toks) => lex_from(script@, 0) == Ok::<Seq<(TokenV, int)>, Seq<char>>(
                token_views(toks@),
            ),
            Err(e) => (e matches EggError::UnknownToken(t) && lex_from(script@, 0)
                == Err::<Seq<(TokenV, int)>, Seq<char>>(t@)),
        },
{
    let ghost s = script@;
    let chars = ascii_chars_of(script);
    let mut toks: Vec<(Token, usize)> = Vec::new();
    let mut i: usize = 0;
    loop
        invariant
            script.is_ascii(),
            chars@ == s,
            s == script@,
            i <= s.len(),
            lex_continues(s, token_views(toks@), i as int),
        decreases s.len() - i,
    {
        let j = skip_ws_at(&chars, i);
        if j >= chars.len() {
            return Ok(toks);
        }
        let ghost done_pre = token_views(toks@);
        let c = chars[j] as u32;
        if c == 40 {
            toks.push((Token::Open, j));
            proof {
                lemma_step(s, done_pre, i as int, (TokenV::Open, j as int), j + 1);
                assert(token_views(toks@) =~= done_pre.push((TokenV::Open, j as int)));
            }
            i = j + 1;
        } else if c == 41 {
            toks.push((Token::Close, j));
            proof {
                lemma_step(s, done_pre, i as int, (TokenV::Close, j as int), j + 1);
                assert(token_views(toks@) =~= done_pre.push((TokenV::Close, j as int)));
            }
            i = j + 1;
        } else if c == 34 {
            match quote_end_at(&chars, j + 1) {
                Some(q) => {
                    let content = script.substring_ascii(j + 1, q).to_owned();
                    toks.push((Token::Text(content), j));
                    proof {
                        lemma_step(
                            s,
                            done_pre,
                            i as int,
                            (TokenV::Text(s.subrange(j + 1, q as int)), j as int),
                            q + 1,
                        );
                        assert(token_views(toks@) =~= done_pre.push(
                            (TokenV::Text(s.subrange(j + 1, q as int)), j as int),
                        ));
                    }
                    i = q + 1;
                },
                None => {
                    proof {
                        assert(vstd::utf8::is_ascii_chars(s));
                        vstd::utf8::is_ascii_chars_encode_utf8(s);
                    }
                    let text = script.substring_ascii(j, script.len()).to_owned();
                    return Err(EggError::UnknownToken(text));
                },
            }
        } else {
            let e = number_end_at(&chars, j);
            if e > j {
                match parse_integer(&chars, j, e) {
                    Some(v) => {
                        toks.push((Token::Number(v), j));
                        proof {
                            lemma_step(
                                s,
                                done_pre,
                                i as int,
                                (TokenV::Number(v as int), j as int),
                                e as int,
                            );
                            assert(token_views(toks@) =~= done_pre.push(
                                (TokenV::Number(v as int), j as int),
                            ));
                        }
                        i = e;
                    },
                    None => {
                        let text = script.substring_ascii(j, e).to_owned();
                        return Err(EggError::UnknownToken(text));
                    },
                }
            } else {
                proof {
                    lemma_skip_stops(s, i as int);
                    assert(is_word_char(s[j as int]));
                    lemma_word_end_bounds(s, j + 1);
                    assert(word_end(s, j as int) == word_end(s, j + 1));
                }
                let w = word_end_at(&chars, j);
                let text = script.substring_ascii(j, w).to_owned();
                let tru = String::from_str("True");
                let fal = String::from_str("False");
                let tok = if text == tru {
                    Token::Boolean(true)
                } else if text == fal {
                    Token::Boolean(false)
                } else {
                    Token::Word(text)
                };
                let ghost tokv = tok@;
                toks.push((tok, j));
                proof {
                    lemma_step(s, done_pre, i as int, (tokv, j as int), w as int);
                    assert(token_views(toks@) =~= done_pre.push((tokv, j as int)));
                }
                i = w;
            }
        }
    }
}

/// A structural parse failure.
pub enum ParseErrV {
    /// A bracket without a partner, at the given position.
    Unbalanced(int),
    /// A call whose target is not a word, closing at the given position.
    BadCallee(int),
}

/// How a call target is resolved, once, at parse time: a name that
/// matches a registered operator binds to it eagerly; any other name
/// is deferred to the function table at evaluation time.
pub open spec fn resolve_spec(ops: Map<Seq<char>, Builtin>, name: Seq<char>) -> CalleeV {
    if ops.contains_key(name) {
        CalleeV::Builtin(ops[name])
    } else {
        CalleeV::Script(name)
    }
}

/// The parser's state machine over the token stream: an output list of
/// expressions and a stack of (mark, position) pairs, one per open
/// bracket. A literal or word token pushes an expression; `(` records
/// the output length; `)` drains the expressions above the mark as the
/// argument list, pops the expression before them as the callee (which
/// must be a word), and pushes the resolved call.
pub open spec fn parse_from(
    toks: Seq<(TokenV, int)>,
    k: int,
    exprs: Seq<ExprV>,
    marks: Seq<(int, int)>,
    ops: Map<Seq<char>, Builtin>,
) -> Result<Seq<ExprV>, ParseErrV>
    decreases toks.len() - k,
{
    if !(0 <= k < toks.len()) {
        if marks.len() > 0 {
            Err(ParseErrV::Unbalanced(marks.last().1))
        } else {
            Ok(exprs)
        }
    } else {
        let pos = toks[k].1;
        match toks[k].0 {
            TokenV::Number(n) => parse_from(
                toks,
                k + 1,
                exprs.push(ExprV::Value(ValueV::Number(n))),
                marks,
                ops,
            ),
            TokenV::Text(t) => parse_from(
                toks,
                k + 1,
                exprs.push(ExprV::Value(ValueV::Str(t))),
                marks,
                ops,
            ),
            TokenV::Boolean(b) => parse_from(
                toks,
                k + 1,
                exprs.push(ExprV::Value(ValueV::Boolean(b))),
                marks,
                ops,
            ),
            TokenV::Word(w) => parse_from(toks, k + 1, exprs.push(ExprV::Word(w)), marks, ops),
            TokenV::Open => parse_from(
                toks,
                k + 1,
                exprs,
                marks.push((exprs.len() as int, pos)),
                ops,
            ),
            TokenV::Close => {
                if marks.len() == 0 {
                    Err(ParseErrV::Unbalanced(pos))
                } else {
                    let m = marks.last().0;
                    if m < 1 || m > exprs.len() {
                        Err(ParseErrV::Unbalanced(pos))
                    } else {
                        match exprs[m - 1] {
                            ExprV::Word(w) => parse_from(
                                toks,
                                k + 1,
                                exprs.take(m - 1).push(
                                    ExprV::Call(resolve_spec(ops, w), exprs.skip(m)),
                                ),
                                marks.drop_last(),
                                ops,
                            ),
                            _ => Err(ParseErrV::BadCallee(pos)),
                        }
                    }
                }
            },
        }
    }
}

/// The models of a mark stack.
pub open spec fn marks_view(ms: Seq<(usize, usize)>) -> Seq<(int, int)> {
    ms.map_values(|p: (usize, usize)| (p.0 as int, p.1 as int))
}

/// Given a valid script, parses and returns the sequence of top-level
/// expressions, with every call target resolved against `operators`.
/// Fails with `UnknownToken` where the lexer cannot classify the text,
/// with `UnbalancedBrackets` at the position of a bracket without a
/// partner, and with `ParserError` where a call target is not a word.
pub fn parse(script: &str, operators: &OperatorSet) -> (res: EggResult<Vec<Expression>>)
    requires
        operators.wf(),
    ensures
        ({
            let s = script@;
            if !vstd::utf8::is_ascii_chars(s) {
                res matches Err(EggError::UnknownToken(_))
            } else {
                match lex_from(s, 0) {
                    Err(t) => res matches Err(EggError::UnknownToken(u)) && u@ == t,
                    Ok(toks) => match parse_from(
                        toks,
                        0,
                        Seq::empty(),
                        Seq::empty(),
                        operators@,
                    ) {
                        Ok(es) => res matches Ok(v) && exprs_view(v@) == es,
                        Err(ParseErrV::Unbalanced(p)) => res matches Err(
                            EggError::UnbalancedBrackets(q),
                        ) && q as int == p,
                        Err(ParseErrV::BadCallee(p)) => res matches Err(
                            EggError::ParserError(a, _, _),
                        ) && a as int == p,
                    },
                }
            }
        }),
{
    let ghost s = script@;
    if !script.is_ascii() {
        return Err(
            EggError::UnknownToken(String::from_str("the source must be ASCII text")),
        );
    }
    let toks = match tokenize(script) {
        Ok(toks) => toks,
        Err(e) => return Err(e),
    };
    let ghost tv = token_views(toks@);
    let mut exprs: Vec<Expression> = Vec::new();
    let mut marks: Vec<(usize, usize)> = Vec::new();
    let mut k: usize = 0;
    proof {
        assert(exprs_view(exprs@) =~= Seq::<ExprV>::empty());
        assert(marks_view(marks@) =~= Seq::<(int, int)>::empty());
    }
    while k < toks.len()
        invariant
            operators.wf(),
            vstd::utf8::is_ascii_chars(script@),
            lex_from(script@, 0) == Ok::<Seq<(TokenV, int)>, Seq<char>>(tv),
            tv == token_views(toks@),
            k <= toks@.len(),
            tv.len() == toks@.len(),
            parse_from(tv, k as int, exprs_view(exprs@), marks_view(marks@), operators@)
                == parse_from(tv, 0, Seq::empty(), Seq::empty(), operators@),
        decreases toks@.len() - k,
    {
        let ghost e0 = exprs@;
        let ghost old_exprs = exprs_view(exprs@);
        let ghost old_marks = marks_view(marks@);
        let (tok, pos) = &toks[k];
        proof {
            assert(tv[k as int] == (tok@, *pos as int));
            crate::expression::lemma_exprs_view(exprs@);
        }
        match tok {
            Token::Number(n) => {
                let e = Expression::Value { value: Value::Number(*n) };
                proof {
                    crate::expression::lemma_exprs_view_push(exprs@, e);
                    assert(expr_view(e) == ExprV::Value(ValueV::Number(*n as int)));
                }
                exprs.push(e);
            },
            Token::Text(t) => {
                let e = Expression::Value { value: Value::String(t.clone()) };
                proof {
                    crate::expression::lemma_exprs_view_push(exprs@, e);
                    assert(expr_view(e) == ExprV::Value(ValueV::Str(t@)));
                }
                exprs.push(e);
            },
            Token::Boolean(b) => {
                let e = Expression::Value { value: Value::Boolean(*b) };
                proof {
                    crate::expression::lemma_exprs_view_push(exprs@, e);
                    assert(expr_view(e) == ExprV::Value(ValueV::Boolean(*b)));
                }
                exprs.push(e);
            },
            Token::Word(w) => {
                let e = Expression::Word { name: w.clone() };
                proof {
                    crate::expression::lemma_exprs_view_push(exprs@, e);
                    assert(expr_view(e) == ExprV::Word(w@));
                }
                exprs.push(e);
            },
            Token::Open => {
                marks.push((exprs.len(), *pos));
                proof {
                    crate::expression::lemma_exprs_view(exprs@);
                    assert(marks_view(marks@) =~= old_marks.push(
                        (exprs@.len() as int, *pos as int),
                    ));
                    assert(old_exprs.len() == exprs@.len());
                }
            },
            Token::Close => {
                let mark = match marks.pop() {
                    Some(m) => m,
                    None => {
                        proof {
                            assert(old_marks.len() == 0);
                        }
                        return Err(EggError::UnbalancedBrackets(*pos));
                    },
                };
                let m = mark.0;
                proof {
                    assert(old_marks.len() > 0);
                    assert(old_marks.last() == (mark.0 as int, mark.1 as int));
                    assert(old_exprs.len() == exprs@.len());
                }
                if m < 1 || m > exprs.len() {
                    return Err(EggError::UnbalancedBrackets(*pos));
                }
                let parameters = exprs.split_off(m);
                let callee = match exprs.pop() {
                    Some(c) => c,
                    None => {
                        proof {
                            assert(false);
                        }
                        Expression::Word { name: String::new() }
                    },
                };
                let name = match callee {
                    Expression::Word { name } => name,
                    _ => {
                        return Err(
                            EggError::ParserError(
                                *pos,
                                *pos,
                                String::from_str("cannot use a non-word as an operation name"),
                            ),
                        );
                    },
                };
                let target = match operators.lookup(&name) {
                    Some(b) => Callee::Builtin(b),
                    None => Callee::Script(name),
                };
                let call = Expression::FnCall { target, parameters };
                proof {
                    assert(marks_view(marks@) =~= old_marks.drop_last());
                    assert(exprs@ =~= e0.take(m - 1));
                    assert(parameters@ =~= e0.skip(m as int));
                    crate::expression::lemma_exprs_view(e0);
                    crate::expression::lemma_exprs_view(exprs@);
                    crate::expression::lemma_exprs_view(parameters@);
                    assert(exprs_view(exprs@) =~= old_exprs.take(m - 1));
                    assert(exprs_view(parameters@) =~= old_exprs.skip(m as int));
                    assert(expr_view(call) == ExprV::Call(
                        resolve_spec(operators@, old_exprs[m - 1]->Word_0),
                        old_exprs.skip(m as int),
                    ));
                    crate::expression::lemma_exprs_view_push(exprs@, call);
                }
                exprs.push(call);
                proof {
                    assert(exprs_view(exprs@) == old_exprs.take(m - 1).push(
                        ExprV::Call(
                            resolve_spec(operators@, old_exprs[m - 1]->Word_0),
                            old_exprs.skip(m as int),
                        ),
                    ));
                }
            },
        }
        k = k + 1;
    }
    if marks.len() > 0 {
        let last = marks[marks.len() - 1];
        return Err(EggError::UnbalancedBrackets(last.1));
    }
    proof {
        assert(marks_view(marks@).len() == 0);
    }
    Ok(exprs)
}

/// One classification step extends the continuation: when lexing from
/// `i` yields the head token at `j` and continues at `next`, the done
/// prefix grows by that head.
proof fn lemma_step(
    s: Seq<char>,
    done: Seq<(TokenV, int)>,
    i: int,
    head: (TokenV, int),
    next: int,
)
    requires
        lex_continues(s, done, i),
        lex_from(s, i) == (match lex_from(s, next) {
            Ok(rest) => Ok::<Seq<(TokenV, int)>, Seq<char>>(seq![head] + rest),
            Err(t) => Err::<Seq<(TokenV, int)>, Seq<char>>(t),
        }),
    ensures
        lex_continues(s, done.push(head), next),
{
    match lex_from(s, next) {
        Ok(rest) => {
            assert(done + (seq![head] + rest) =~= done.push(head) + rest);
        },
        Err(_) => {},
    }
}

} // verus!
