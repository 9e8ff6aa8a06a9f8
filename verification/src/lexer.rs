//! A small arithmetic lexer: digits form decimal number tokens, the four
//! operator characters form operator tokens, blanks separate, and anything
//! else is an error. A digit run whose value exceeds the 32-bit signed range
//! is an error as well.

use vstd::prelude::*;
use vstd::string::{StrSliceExecFns, StringExecFns};

verus! {

/// A token of the little arithmetic language.
#[derive(Clone, Copy, Debug, PartialEq, Eq, Structural)]
pub enum Token {
    Number(i32),
    Plus,
    Minus,
    Multiply,
    Divide,
}

/// `c` is a decimal digit.
pub open spec fn is_digit_char(c: char) -> bool {
    48 <= c as u32 <= 57
}

/// The numeric value of a digit character.
pub open spec fn digit_val(c: char) -> int {
    c as u32 - 48
}

/// The first position at or after `i` that does not hold a digit.
pub open spec fn digits_end(s: Seq<char>, i: int) -> int
    decreases s.len() - i,
{
    if i < 0 || i >= s.len() || !is_digit_char(s[i]) {
        i
    } else {
        digits_end(s, i + 1)
    }
}

/// The decimal value of the digit run `s[i .. j]`.
pub open spec fn digits_value(s: Seq<char>, i: int, j: int) -> int
    decreases j - i,
{
    if j <= i {
        0
    } else {
        digits_value(s, i, j - 1) * 10 + digit_val(s[j - 1])
    }
}

/// The end of a digit run stays inside the string, consumes at least the
/// digit it starts on, and stops at the first non-digit.
pub proof fn lemma_digits_end_bounds(s: Seq<char>, i: int)
    requires
        0 <= i <= s.len(),
    ensures
        i <= digits_end(s, i) <= s.len(),
        0 <= i < s.len() && is_digit_char(s[i]) ==> digits_end(s, i) > i,
    decreases s.len() - i,
{
    if i < s.len() && is_digit_char(s[i]) {
        lemma_digits_end_bounds(s, i + 1);
    }
}

/// Prepend already-lexed tokens to the outcome of lexing the rest.
pub open spec fn cons_result(pre: Seq<Token>, rest: Option<Seq<Token>>) -> Option<Seq<Token>> {
    match rest {
        Some(r) => Some(pre + r),
        None => None,
    }
}

/// The token sequence of `s` from position `i` on, or `None` when the
/// remainder does not lex: a digit run becomes one `Number` token when its
/// value fits an `i32` (and fails the whole lex otherwise), each operator
/// character becomes its token, blanks are skipped, and any other character
/// fails the lex.
pub open spec fn spec_lex(s: Seq<char>, i: int) -> Option<Seq<Token>>
    decreases s.len() - i,
    via spec_lex_dec
{
    if i < 0 {
        None
    } else if i >= s.len() {
        Some(Seq::empty())
    } else {
        let c = s[i];
        if is_digit_char(c) {
            let e = digits_end(s, i);
            let v = digits_value(s, i, e);
            if v > 0x7FFF_FFFF {
                None
            } else {
                cons_result(seq![Token::Number(v as i32)], spec_lex(s, e))
            }
        } else if c == '+' {
            cons_result(seq![Token::Plus], spec_lex(s, i + 1))
        } else if c == '-' {
            cons_result(seq![Token::Minus], spec_lex(s, i + 1))
        } else if c == '*' {
            cons_result(seq![Token::Multiply], spec_lex(s, i + 1))
        } else if c == '/' {
            cons_result(seq![Token::Divide], spec_lex(s, i + 1))
        } else if c == ' ' {
            spec_lex(s, i + 1)
        } else {
            None
        }
    }
}

#[via_fn]
proof fn spec_lex_dec(s: Seq<char>, i: int) {
    if 0 <= i < s.len() && is_digit_char(s[i]) {
        lemma_digits_end_bounds(s, i);
    }
}

/// Read a digit run starting at `start` and parse it as an `i32`.
///
/// Returns the parse outcome together with the position just past the run.
/// The parse fails exactly when the run is empty or its value exceeds
/// `i32::MAX`; the returned position is the end of the run either way.
pub fn parse_number(s: &str, start: usize) -> (r: (Result<i32, String>, usize))
    requires
        start <= s@.len(),
    ensures
        r.1 == digits_end(s@, start as int),
        match r.0 {
            Ok(v) => {
                &&& digits_end(s@, start as int) > start
                &&& v == digits_value(s@, start as int, digits_end(s@, start as int))
                &&& 0 <= v <= 0x7FFF_FFFF
            },
            Err(_) => digits_end(s@, start as int) == start || digits_value(
                s@,
                start as int,
                digits_end(s@, start as int),
            ) > 0x7FFF_FFFF,
        },
{
    let len: usize = s.unicode_len();
    let mut j: usize = start;
    let mut val: u64 = 0;
    let mut over: bool = false;
    loop
        invariant_except_break
            start <= j <= len,
            len == s@.len(),
            digits_end(s@, start as int) == digits_end(s@, j as int),
            !over ==> val == digits_value(s@, start as int, j as int) && val <= 0x7FFF_FFFF,
            over ==> digits_value(s@, start as int, j as int) > 0x7FFF_FFFF,
        ensures
            start <= j <= len,
            len == s@.len(),
            j == digits_end(s@, start as int),
            !over ==> val == digits_value(s@, start as int, j as int) && val <= 0x7FFF_FFFF,
            over ==> digits_value(s@, start as int, j as int) > 0x7FFF_FFFF,
        decreases len - j,
    {
        if j >= len {
            break ;
        }
        let c: char = s.get_char(j);
        let cu: u32 = c as u32;
        if !(cu >= 48 && cu <= 57) {
            break ;
        }
        proof {
            assert(digits_end(s@, j as int) == digits_end(s@, j + 1));
            assert(digits_value(s@, start as int, j + 1) == digits_value(
                s@,
                start as int,
                j as int,
            ) * 10 + digit_val(s@[j as int]));
        }
        let d: u32 = cu - 48;
        if !over {
            let next: u64 = val * 10 + (d as u64);
            if next > 0x7FFF_FFFF {
                over = true;
            } else {
                val = next;
            }
        }
        j = j + 1;
    }
    if j == start {
        (
            Err(String::from_str("Failed to parse number: cannot parse integer from empty string")),
            j,
        )
    } else if over {
        (
            Err(
                String::from_str("Failed to parse number: number too large to fit in target type"),
            ),
            j,
        )
    } else {
        (Ok(val as i32), j)
    }
}

/// Tokenize `input`: the result is `Ok` with exactly the token sequence of
/// [`spec_lex`] when the whole string lexes, and `Err` when it does not —
/// that is, when the string holds a character other than a digit, an
/// operator or a blank, or a digit run overflows `i32`.
pub fn lexer(input: &str) -> (r: Result<Vec<Token>, String>)
    ensures
        match r {
            Ok(ts) => spec_lex(input@, 0) == Some(ts@),
            Err(_) => spec_lex(input@, 0) is None,
        },
{
    let len: usize = input.unicode_len();
    let mut tokens: Vec<Token> = Vec::new();
    let mut i: usize = 0;
    proof {
        lemma_cons_result_empty(spec_lex(input@, 0));
    }
    while i < len
        invariant
            i <= len,
            len == input@.len(),
            spec_lex(input@, 0) == cons_result(tokens@, spec_lex(input@, i as int)),
        decreases len - i,
    {
        let c: char = input.get_char(i);
        let cu: u32 = c as u32;
        if cu >= 48 && cu <= 57 {
            proof {
                lemma_digits_end_bounds(input@, i as int);
            }
            let (res, j) = parse_number(input, i);
            match res {
                Ok(v) => {
                    proof {
                        lemma_cons_result_step(
                            tokens@,
                            Token::Number(v),
                            spec_lex(input@, j as int),
                        );
                    }
                    tokens.push(Token::Number(v));
                    i = j;
                },
                Err(e) => {
                    proof {
                        assert(spec_lex(input@, i as int) is None);
                    }
                    return Err(e);
                },
            }
        } else if c == ' ' {
            i = i + 1;
        } else if c == '+' {
            proof {
                lemma_cons_result_step(tokens@, Token::Plus, spec_lex(input@, i + 1));
            }
            tokens.push(Token::Plus);
            i = i + 1;
        } else if c == '-' {
            proof {
                lemma_cons_result_step(tokens@, Token::Minus, spec_lex(input@, i + 1));
            }
            tokens.push(Token::Minus);
            i = i + 1;
        } else if c == '*' {
            proof {
                lemma_cons_result_step(tokens@, Token::Multiply, spec_lex(input@, i + 1));
            }
            tokens.push(Token::Multiply);
            i = i + 1;
        } else if c == '/' {
            proof {
                lemma_cons_result_step(tokens@, Token::Divide, spec_lex(input@, i + 1));
            }
            tokens.push(Token::Divide);
            i = i + 1;
        } else {
            let mut msg = String::from_str("Invalid character: ");
            let cs = c.to_string();
            msg.append(cs.as_str());
            return Err(msg);
        }
    }
    proof {
        assert(tokens@ + Seq::<Token>::empty() =~= tokens@);
    }
    Ok(tokens)
}

/// Prepending no tokens changes nothing.
proof fn lemma_cons_result_empty(rest: Option<Seq<Token>>)
    ensures
        cons_result(Seq::empty(), rest) == rest,
{
    match rest {
        Some(r) => {
            assert(Seq::empty() + r =~= r);
        },
        None => {},
    }
}

/// Prepending tokens one at a time agrees with prepending them in one block.
proof fn lemma_cons_result_step(pre: Seq<Token>, t: Token, rest: Option<Seq<Token>>)
    ensures
        cons_result(pre, cons_result(seq![t], rest)) == cons_result(pre.push(t), rest),
{
    match rest {
        Some(r) => {
            assert(pre + (seq![t] + r) =~= pre.push(t) + r);
        },
        None => {},
    }
}

} // verus!
