//! The tokens of an install condition.
use vstd::prelude::*;
use vstd::string::*;

verus! {

/// A lexical unit of an install condition.
#[derive(Debug, Clone)]
pub enum Token {
    LParen,
    RParen,
    And,
    Or,
    Not,
    Eq,
    Ident(String),
    Number(u32),
}

/// The mathematical value of a [`Token`].
pub enum TokenSpec {
    LParen,
    RParen,
    And,
    Or,
    Not,
    Eq,
    Ident(Seq<char>),
    Number(u32),
}

impl View for Token {
    type V = TokenSpec;

    open spec fn view(&self) -> TokenSpec {
        match self {
            Token::LParen => TokenSpec::LParen,
            Token::RParen => TokenSpec::RParen,
            Token::And => TokenSpec::And,
            Token::Or => TokenSpec::Or,
            Token::Not => TokenSpec::Not,
            Token::Eq => TokenSpec::Eq,
            Token::Ident(name) => TokenSpec::Ident(name@),
            Token::Number(n) => TokenSpec::Number(*n),
        }
    }
}

/// The values of a sequence of tokens, in order.
pub open spec fn token_views(tokens: Seq<Token>) -> Seq<TokenSpec> {
    tokens.map_values(|t: Token| t@)
}

/// Whether `char::is_whitespace` holds of `c`: the Unicode `White_Space` property.
pub uninterp spec fn char_is_whitespace(c: char) -> bool;

/// Calls `char::is_whitespace`. Trusted: the result is the Unicode `White_Space`
/// property of `c`, which depends on `c` alone.
#[verifier::external_body]
fn is_whitespace(c: char) -> (b: bool)
    ensures
        b == char_is_whitespace(c),
{
    c.is_whitespace()
}

/// A character that ends an identifier: white space, a parenthesis or `=`.
pub open spec fn is_delimiter(c: char) -> bool {
    char_is_whitespace(c) || c == '(' || c == ')' || c == '='
}

pub open spec fn is_digit(c: char) -> bool {
    '0' <= c && c <= '9'
}

/// The decimal value of a digit character.
pub open spec fn digit_value(c: char) -> u32 {
    (c as u32 - '0' as u32) as u32
}

/// The end of the maximal run of digits that starts at `i`.
pub open spec fn number_end(s: Seq<char>, i: int) -> int
    decreases s.len() - i,
{
    if 0 <= i < s.len() && is_digit(s[i]) {
        number_end(s, i + 1)
    } else {
        i
    }
}

/// The end of the maximal run of non-delimiters that starts at `i`.
pub open spec fn ident_end(s: Seq<char>, i: int) -> int
    decreases s.len() - i,
{
    if 0 <= i < s.len() && !is_delimiter(s[i]) {
        ident_end(s, i + 1)
    } else {
        i
    }
}

/// The value of a run of digits, most significant first, modulo 2^32.
pub open spec fn number_value(digits: Seq<char>) -> u32
    decreases digits.len(),
{
    if digits.len() == 0 {
        0
    } else {
        ((number_value(digits.drop_last()) * 10 + digit_value(digits.last())) % 0x1_0000_0000) as u32
    }
}

/// The token that a maximal run of non-delimiters stands for: a keyword, or
/// else an identifier.
pub open spec fn word_token(word: Seq<char>) -> TokenSpec {
    if word == seq!['A', 'N', 'D'] {
        TokenSpec::And
    } else if word == seq!['O', 'R'] {
        TokenSpec::Or
    } else if word == seq!['N', 'O', 'T'] {
        TokenSpec::Not
    } else {
        TokenSpec::Ident(word)
    }
}

pub proof fn lemma_number_end_bounds(s: Seq<char>, i: int)
    requires
        0 <= i <= s.len(),
    ensures
        i <= number_end(s, i) <= s.len(),
        0 <= i < s.len() && is_digit(s[i]) ==> i < number_end(s, i),
    decreases s.len() - i,
{
    if i < s.len() && is_digit(s[i]) {
        lemma_number_end_bounds(s, i + 1);
    }
}

pub proof fn lemma_ident_end_bounds(s: Seq<char>, i: int)
    requires
        0 <= i <= s.len(),
    ensures
        i <= ident_end(s, i) <= s.len(),
        0 <= i < s.len() && !is_delimiter(s[i]) ==> i < ident_end(s, i),
    decreases s.len() - i,
{
    if i < s.len() && !is_delimiter(s[i]) {
        lemma_ident_end_bounds(s, i + 1);
    }
}

/// The tokens of `s` from position `i` on. White space separates and is
/// skipped; a digit starts a number; any other non-delimiter starts a word.
pub open spec fn tokens_from(s: Seq<char>, i: int) -> Seq<TokenSpec>
    decreases s.len() - i,
    via tokens_from_decreases
{
    if i < 0 || i >= s.len() {
        Seq::empty()
    } else if char_is_whitespace(s[i]) {
        tokens_from(s, i + 1)
    } else if s[i] == '(' {
        seq![TokenSpec::LParen] + tokens_from(s, i + 1)
    } else if s[i] == ')' {
        seq![TokenSpec::RParen] + tokens_from(s, i + 1)
    } else if s[i] == '=' {
        seq![TokenSpec::Eq] + tokens_from(s, i + 1)
    } else if is_digit(s[i]) {
        let end = number_end(s, i);
        seq![TokenSpec::Number(number_value(s.subrange(i, end)))] + tokens_from(s, end)
    } else {
        let end = ident_end(s, i);
        seq![word_token(s.subrange(i, end))] + tokens_from(s, end)
    }
}

#[via_fn]
proof fn tokens_from_decreases(s: Seq<char>, i: int) {
    if 0 <= i < s.len() {
        lemma_number_end_bounds(s, i);
        lemma_ident_end_bounds(s, i);
    }
}

/// The tokens of a whole condition string.
pub open spec fn tokenize_spec(s: Seq<char>) -> Seq<TokenSpec> {
    tokens_from(s, 0)
}

/// Reads the run of digits that starts at `start` and returns its end and its
/// value modulo 2^32.
fn scan_number(input: &str, len: usize, start: usize) -> (r: (usize, u32))
    requires
        len == input@.len(),
        start < len,
        is_digit(input@[start as int]),
    ensures
        r.0 == number_end(input@, start as int),
        start < r.0 <= len,
        r.1 == number_value(input@.subrange(start as int, r.0 as int)),
{
    let mut pos: usize = start;
    let mut value: u32 = 0;
    proof {
        lemma_number_end_bounds(input@, start as int);
    }
    while pos < len && is_digit_char(input.get_char(pos))
        invariant
            len == input@.len(),
            start <= pos <= len,
            number_end(input@, pos as int) == number_end(input@, start as int),
            value == number_value(input@.subrange(start as int, pos as int)),
        decreases len - pos,
    {
        let c = input.get_char(pos);
        let d: u32 = c as u32 - '0' as u32;
        proof {
            let next = input@.subrange(start as int, pos + 1);
            assert(next.drop_last() =~= input@.subrange(start as int, pos as int));
            assert(next.last() == c);
        }
        value = value.wrapping_mul(10).wrapping_add(d);
        pos = pos + 1;
    }
    (pos, value)
}

fn is_digit_char(c: char) -> (b: bool)
    ensures
        b == is_digit(c),
{
    '0' <= c && c <= '9'
}

fn is_delimiter_char(c: char) -> (b: bool)
    ensures
        b == is_delimiter(c),
{
    is_whitespace(c) || c == '(' || c == ')' || c == '='
}

/// Reads the run of non-delimiters that starts at `start` and returns its end.
fn scan_word(input: &str, len: usize, start: usize) -> (end: usize)
    requires
        len == input@.len(),
        start < len,
        !is_delimiter(input@[start as int]),
    ensures
        end == ident_end(input@, start as int),
        start < end <= len,
{
    let mut pos: usize = start;
    proof {
        lemma_ident_end_bounds(input@, start as int);
    }
    while pos < len && !is_delimiter_char(input.get_char(pos))
        invariant
            len == input@.len(),
            start <= pos <= len,
            ident_end(input@, pos as int) == ident_end(input@, start as int),
        decreases len - pos,
    {
        pos = pos + 1;
    }
    pos
}

/// The token of the word `input[start..end]`.
fn make_word(input: &str, start: usize, end: usize) -> (t: Token)
    requires
        start < end <= input@.len(),
    ensures
        t@ == word_token(input@.subrange(start as int, end as int)),
{
    let ghost word = input@.subrange(start as int, end as int);
    let ghost and = seq!['A', 'N', 'D'];
    let ghost or = seq!['O', 'R'];
    let ghost not = seq!['N', 'O', 'T'];
    let n = end - start;
    let c0 = input.get_char(start);
    assert(word.len() == n && word[0] == c0);
    assert(and[0] == 'A' && or[0] == 'O' && not[0] == 'N');
    if n == 3 {
        let c1 = input.get_char(start + 1);
        let c2 = input.get_char(start + 2);
        assert(word[1] == c1 && word[2] == c2);
        assert(and[1] == 'N' && and[2] == 'D' && not[1] == 'O' && not[2] == 'T');
        if c0 == 'A' && c1 == 'N' && c2 == 'D' {
            assert(word =~= and);
            return Token::And;
        }
        if c0 == 'N' && c1 == 'O' && c2 == 'T' {
            assert(word =~= not);
            return Token::Not;
        }
    } else if n == 2 {
        let c1 = input.get_char(start + 1);
        assert(word[1] == c1);
        assert(or[1] == 'R');
        if c0 == 'O' && c1 == 'R' {
            assert(word =~= or);
            return Token::Or;
        }
    }
    assert(word != and && word != or && word != not);
    Token::Ident(input.substring_char(start, end).to_owned())
}

/// Splits a condition string into tokens.
pub fn tokenize(input: &str) -> (tokens: Vec<Token>)
    ensures
        token_views(tokens@) == tokenize_spec(input@),
{
    let len = input.unicode_len();
    let mut tokens: Vec<Token> = Vec::new();
    let mut pos: usize = 0;
    assert(token_views(tokens@) =~= Seq::<TokenSpec>::empty());
    while pos < len
        invariant
            len == input@.len(),
            pos <= len,
            token_views(tokens@) + tokens_from(input@, pos as int) == tokenize_spec(input@),
        decreases len - pos,
    {
        let c = input.get_char(pos);
        let ghost before = token_views(tokens@);
        let ghost rest = tokens_from(input@, pos as int);
        if is_whitespace(c) {
            pos = pos + 1;
        } else if c == '(' || c == ')' || c == '=' {
            let t = if c == '(' {
                Token::LParen
            } else if c == ')' {
                Token::RParen
            } else {
                Token::Eq
            };
            tokens.push(t);
            pos = pos + 1;
            proof {
                let after = tokens_from(input@, pos as int);
                assert(token_views(tokens@) =~= before.push(t@));
                assert(before.push(t@) + after =~= before + (seq![t@] + after));
            }
        } else if is_digit_char(c) {
            let (end, value) = scan_number(input, len, pos);
            let t = Token::Number(value);
            tokens.push(t);
            pos = end;
            proof {
                let after = tokens_from(input@, pos as int);
                assert(token_views(tokens@) =~= before.push(t@));
                assert(before.push(t@) + after =~= before + (seq![t@] + after));
            }
        } else {
            let end = scan_word(input, len, pos);
            let t = make_word(input, pos, end);
            let ghost tv = t@;
            tokens.push(t);
            pos = end;
            proof {
                let after = tokens_from(input@, pos as int);
                assert(token_views(tokens@) =~= before.push(tv));
                assert(before.push(tv) + after =~= before + (seq![tv] + after));
            }
        }
    }
    assert(token_views(tokens@) + Seq::<TokenSpec>::empty() =~= token_views(tokens@));
    tokens
}

} // verus!
