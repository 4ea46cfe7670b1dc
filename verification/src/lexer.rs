//! The tokenizer: turns program text into tokens.
//!
//! The grammar is a priority-ordered list of rules, tried at each
//! position of the text; the first rule that matches wins, and each rule
//! takes its longest match:
//!   1. minus sign, digits, optional decimal point with digits — a
//!      negative number (the minus alone never matches this rule);
//!   2. digits, optional decimal point with digits — a number;
//!   3. a run of characters that are not digits, `$`, `:` or
//!      whitespace — an identifier;
//!   4. `$` — the value-of marker;
//!   5. `:` — the assign marker;
//!   6. a whitespace character — discarded.
//! Text that matches no rule at some position is a lexing failure: the
//! whole run is rejected, with no recovery.

use vstd::prelude::*;

use crate::token::{Literal, Token, TokenModel};

verus! {

/// A decimal digit.
pub open spec fn digit_char(c: char) -> bool {
    '0' <= c && c <= '9'
}

/// A whitespace character (the Unicode `White_Space` set).
pub open spec fn space_char(c: char) -> bool {
    ||| c == ' '
    ||| c == '\t'
    ||| c == '\n'
    ||| c == '\r'
    ||| c == '\u{b}'
    ||| c == '\u{c}'
    ||| c == '\u{85}'
    ||| c == '\u{a0}'
    ||| c == '\u{1680}'
    ||| ('\u{2000}' <= c && c <= '\u{200a}')
    ||| c == '\u{2028}'
    ||| c == '\u{2029}'
    ||| c == '\u{202f}'
    ||| c == '\u{205f}'
    ||| c == '\u{3000}'
}

/// A character that may stand in an identifier: anything but digits,
/// the two markers and whitespace.
pub open spec fn ident_char(c: char) -> bool {
    !digit_char(c) && c != '$' && c != ':' && !space_char(c)
}

/// Length of the run of digits starting at position `i`.
pub open spec fn digit_run(s: Seq<char>, i: int) -> int
    decreases s.len() - i when i <= s.len()
{
    if i < 0 || i >= s.len() || !digit_char(s[i]) {
        0
    } else {
        1 + digit_run(s, i + 1)
    }
}

/// Length of the run of identifier characters starting at position `i`.
pub open spec fn ident_run(s: Seq<char>, i: int) -> int
    decreases s.len() - i when i <= s.len()
{
    if i < 0 || i >= s.len() || !ident_char(s[i]) {
        0
    } else {
        1 + ident_run(s, i + 1)
    }
}

/// Length of the longest unsigned-number match at position `i`: digits,
/// then optionally a decimal point that is followed by at least one
/// digit. Zero means no match.
pub open spec fn number_len(s: Seq<char>, i: int) -> int {
    let d = digit_run(s, i);
    if i + d + 1 < s.len() && s[i + d] == '.' && digit_char(s[i + d + 1]) {
        d + 1 + digit_run(s, i + d + 1)
    } else {
        d
    }
}

/// Length of the longest negative-number match at position `i`: a minus
/// sign immediately followed by an unsigned-number match. Zero means no
/// match.
pub open spec fn neg_number_len(s: Seq<char>, i: int) -> int {
    if 0 <= i < s.len() && s[i] == '-' && number_len(s, i + 1) > 0 {
        1 + number_len(s, i + 1)
    } else {
        0
    }
}

pub proof fn lemma_digit_run_bounds(s: Seq<char>, i: int)
    requires
        0 <= i <= s.len(),
    ensures
        0 <= digit_run(s, i),
        i + digit_run(s, i) <= s.len(),
    decreases s.len() - i,
{
    if i < s.len() && digit_char(s[i]) {
        lemma_digit_run_bounds(s, i + 1);
    }
}

pub proof fn lemma_ident_run_bounds(s: Seq<char>, i: int)
    requires
        0 <= i <= s.len(),
    ensures
        0 <= ident_run(s, i),
        i + ident_run(s, i) <= s.len(),
    decreases s.len() - i,
{
    if i < s.len() && ident_char(s[i]) {
        lemma_ident_run_bounds(s, i + 1);
    }
}

pub proof fn lemma_number_len_bounds(s: Seq<char>, i: int)
    requires
        0 <= i <= s.len(),
    ensures
        0 <= number_len(s, i),
        i + number_len(s, i) <= s.len(),
{
    lemma_digit_run_bounds(s, i);
    let d = digit_run(s, i);
    if i + d + 1 < s.len() && s[i + d] == '.' && digit_char(s[i + d + 1]) {
        lemma_digit_run_bounds(s, i + d + 1);
    }
}

/// Prepend a token to a tokenization outcome; a failure stays a failure.
pub open spec fn lex_cons(t: TokenModel, rest: Result<Seq<TokenModel>, int>) -> Result<
    Seq<TokenModel>,
    int,
> {
    match rest {
        Ok(ts) => Ok(seq![t] + ts),
        Err(e) => Err(e),
    }
}

/// Tokenization of `s` from position `i` on: the token sequence, or the
/// first position at which no rule matches.
pub open spec fn lex_at(s: Seq<char>, i: int) -> Result<Seq<TokenModel>, int>
    decreases s.len() - i when 0 <= i <= s.len() via lex_at_decreases
{
    if i >= s.len() {
        Ok(Seq::empty())
    } else if neg_number_len(s, i) > 0 {
        let n = neg_number_len(s, i);
        lex_cons(
            TokenModel::Number { negative: true, digits: s.subrange(i + 1, i + n) },
            lex_at(s, i + n),
        )
    } else if number_len(s, i) > 0 {
        let n = number_len(s, i);
        lex_cons(TokenModel::Number { negative: false, digits: s.subrange(i, i + n) }, lex_at(s, i + n))
    } else if ident_run(s, i) > 0 {
        let n = ident_run(s, i);
        lex_cons(TokenModel::Identifier(s.subrange(i, i + n)), lex_at(s, i + n))
    } else if s[i] == '$' {
        lex_cons(TokenModel::ValueOf, lex_at(s, i + 1))
    } else if s[i] == ':' {
        lex_cons(TokenModel::Assign, lex_at(s, i + 1))
    } else if space_char(s[i]) {
        lex_at(s, i + 1)
    } else {
        Err(i)
    }
}

#[via_fn]
proof fn lex_at_decreases(s: Seq<char>, i: int) {
    if 0 <= i < s.len() {
        lemma_number_len_bounds(s, i + 1);
        lemma_number_len_bounds(s, i);
        lemma_ident_run_bounds(s, i);
    }
}

/// The whole-text tokenization: rules applied from position zero.
pub open spec fn lex_spec(s: Seq<char>) -> Result<Seq<TokenModel>, int> {
    lex_at(s, 0)
}

/// With this ruleset no text can fail to tokenize: a digit starts a
/// number match, the markers and whitespace have rules of their own,
/// and every remaining character is an identifier character. The
/// failure case of [`lex_at`] is there for the grammar's sake — a rule
/// set need not cover every character — but this one does.
pub proof fn lemma_lex_total(s: Seq<char>, i: int)
    requires
        0 <= i <= s.len(),
    ensures
        lex_at(s, i) is Ok,
    decreases s.len() - i,
{
    if i < s.len() {
        if neg_number_len(s, i) > 0 {
            lemma_number_len_bounds(s, i + 1);
            lemma_lex_total(s, i + neg_number_len(s, i));
        } else if number_len(s, i) > 0 {
            lemma_number_len_bounds(s, i);
            lemma_lex_total(s, i + number_len(s, i));
        } else if ident_run(s, i) > 0 {
            lemma_ident_run_bounds(s, i);
            lemma_lex_total(s, i + ident_run(s, i));
        } else if s[i] == '$' || s[i] == ':' || space_char(s[i]) {
            lemma_lex_total(s, i + 1);
        } else {
            if digit_char(s[i]) {
                lemma_digit_run_bounds(s, i);
                lemma_digit_run_bounds(s, i + 1);
                assert(digit_run(s, i) >= 1);
                let d = digit_run(s, i);
                if i + d + 1 < s.len() && s[i + d] == '.' && digit_char(s[i + d + 1]) {
                    lemma_digit_run_bounds(s, i + d + 1);
                }
                assert(number_len(s, i) > 0);
                assert(false);
            } else {
                assert(ident_char(s[i]));
                lemma_ident_run_bounds(s, i + 1);
                assert(ident_run(s, i) > 0);
                assert(false);
            }
        }
    }
}

/// A lexing failure: no rule matched at `position` (a character index).
#[derive(Clone, Copy, PartialEq, Eq, Debug)]
pub struct LexError {
    pub position: usize,
}

/// Decides [`digit_char`].
pub fn is_digit(c: char) -> (r: bool)
    ensures
        r == digit_char(c),
{
    '0' <= c && c <= '9'
}

/// Decides [`space_char`].
pub fn is_space(c: char) -> (r: bool)
    ensures
        r == space_char(c),
{
    c == ' ' || c == '\t' || c == '\n' || c == '\r' || c == '\u{b}' || c == '\u{c}' || c
        == '\u{85}' || c == '\u{a0}' || c == '\u{1680}' || ('\u{2000}' <= c && c <= '\u{200a}') || c
        == '\u{2028}' || c == '\u{2029}' || c == '\u{202f}' || c == '\u{205f}' || c == '\u{3000}'
}

/// Decides [`ident_char`].
pub fn is_ident_char(c: char) -> (r: bool)
    ensures
        r == ident_char(c),
{
    !is_digit(c) && c != '$' && c != ':' && !is_space(c)
}

pub(crate) fn digit_run_from(s: &str, i: usize, n: usize) -> (r: usize)
    requires
        n == s@.len(),
        i <= n,
    ensures
        r as int == digit_run(s@, i as int),
        i + r <= n,
{
    let mut j = i;
    while j < n && is_digit(s.get_char(j))
        invariant
            i <= j <= n,
            n == s@.len(),
            digit_run(s@, i as int) == j - i + digit_run(s@, j as int),
        decreases n - j,
    {
        j = j + 1;
    }
    j - i
}

fn ident_run_from(s: &str, i: usize, n: usize) -> (r: usize)
    requires
        n == s@.len(),
        i <= n,
    ensures
        r as int == ident_run(s@, i as int),
        i + r <= n,
{
    let mut j = i;
    while j < n && is_ident_char(s.get_char(j))
        invariant
            i <= j <= n,
            n == s@.len(),
            ident_run(s@, i as int) == j - i + ident_run(s@, j as int),
        decreases n - j,
    {
        j = j + 1;
    }
    j - i
}

fn number_match(s: &str, i: usize, n: usize) -> (r: usize)
    requires
        n == s@.len(),
        i <= n,
    ensures
        r as int == number_len(s@, i as int),
        i + r <= n,
{
    let d = digit_run_from(s, i, n);
    let e = i + d;
    if e < n && e + 1 < n && s.get_char(e) == '.' && is_digit(s.get_char(e + 1)) {
        let d2 = digit_run_from(s, e + 1, n);
        d + 1 + d2
    } else {
        d
    }
}

fn neg_number_match(s: &str, i: usize, n: usize) -> (r: usize)
    requires
        n == s@.len(),
        i < n,
    ensures
        r as int == neg_number_len(s@, i as int),
        i + r <= n,
{
    if s.get_char(i) == '-' {
        let m = number_match(s, i + 1, n);
        if m > 0 {
            1 + m
        } else {
            0
        }
    } else {
        0
    }
}

/// Prepend already-taken tokens to the outcome of the rest of the text.
pub open spec fn lex_prepend(ts: Seq<TokenModel>, rest: Result<Seq<TokenModel>, int>) -> Result<
    Seq<TokenModel>,
    int,
> {
    match rest {
        Ok(us) => Ok(ts + us),
        Err(e) => Err(e),
    }
}

proof fn lemma_prepend_cons(ts: Seq<TokenModel>, t: TokenModel, rest: Result<Seq<TokenModel>, int>)
    ensures
        lex_prepend(ts.push(t), rest) == lex_prepend(ts, lex_cons(t, rest)),
{
    match rest {
        Ok(us) => {
            assert(ts.push(t) + us =~= ts + (seq![t] + us));
        },
        Err(_) => {},
    }
}

/// Tokenize a whole program: the token sequence that the grammar rules
/// give, or the first position at which no rule matches.
pub fn tokenize(src: &str) -> (res: Result<Vec<Token>, LexError>)
    ensures
        match res {
            Ok(toks) => lex_spec(src@) == Ok::<Seq<TokenModel>, int>(toks.deep_view()),
            Err(e) => lex_spec(src@) == Err::<Seq<TokenModel>, int>(e.position as int)
                && e.position < src@.len(),
        },
{
    let n = src.unicode_len();
    let mut toks: Vec<Token> = Vec::new();
    let mut i: usize = 0;
    while i < n
        invariant
            i <= n,
            n == src@.len(),
            lex_at(src@, 0) == lex_prepend(toks.deep_view(), lex_at(src@, i as int)),
        decreases n - i,
    {
        let ghost prev = toks.deep_view();
        let nm = neg_number_match(src, i, n);
        if nm > 0 {
            let digits = src.substring_char(i + 1, i + nm);
            toks.push(Token::Number(Literal { negative: true, digits: String::from_str(digits) }));
            proof {
                assert(toks.deep_view() =~= prev.push(toks.deep_view().last()));
                lemma_prepend_cons(prev, toks.deep_view().last(), lex_at(src@, i + nm));
            }
            i = i + nm;
        } else {
            let pm = number_match(src, i, n);
            if pm > 0 {
                let digits = src.substring_char(i, i + pm);
                toks.push(
                    Token::Number(Literal { negative: false, digits: String::from_str(digits) }),
                );
                proof {
                    assert(toks.deep_view() =~= prev.push(toks.deep_view().last()));
                    lemma_prepend_cons(prev, toks.deep_view().last(), lex_at(src@, i + pm));
                }
                i = i + pm;
            } else {
                let im = ident_run_from(src, i, n);
                if im > 0 {
                    let name = src.substring_char(i, i + im);
                    toks.push(Token::Identifier(String::from_str(name)));
                    proof {
                        assert(toks.deep_view() =~= prev.push(toks.deep_view().last()));
                        lemma_prepend_cons(prev, toks.deep_view().last(), lex_at(src@, i + im));
                    }
                    i = i + im;
                } else {
                    let c = src.get_char(i);
                    if c == '$' {
                        toks.push(Token::ValueOf);
                        proof {
                            assert(toks.deep_view() =~= prev.push(TokenModel::ValueOf));
                            lemma_prepend_cons(prev, TokenModel::ValueOf, lex_at(src@, i + 1));
                        }
                        i = i + 1;
                    } else if c == ':' {
                        toks.push(Token::Assign);
                        proof {
                            assert(toks.deep_view() =~= prev.push(TokenModel::Assign));
                            lemma_prepend_cons(prev, TokenModel::Assign, lex_at(src@, i + 1));
                        }
                        i = i + 1;
                    } else if is_space(c) {
                        i = i + 1;
                    } else {
                        assert(lex_at(src@, i as int) == Err::<Seq<TokenModel>, int>(i as int));
                        return Err(LexError { position: i });
                    }
                }
            }
        }
    }
    proof {
        assert(lex_at(src@, n as int) == Ok::<Seq<TokenModel>, int>(Seq::empty()));
        assert(toks.deep_view() + Seq::<TokenModel>::empty() =~= toks.deep_view());
    }
    Ok(toks)
}

} // verus!
