//! Searching a signature with the regular-expression engine.
//!
//! A signature is handed to the engine as an expression over raw bytes:
//! the flags `(?s-u)`, then `.` for a wildcard and `\xHH` for a byte.

use crate::pattern::{first_match, lemma_first_match_found, lemma_least_match, matches_at, BytePattern, Token};
use vstd::prelude::*;

verus! {

/// The start of the first match that the engine finds for the expression
/// `source` in `haystack`; `None` where the engine does not accept the
/// expression or finds no match.
pub uninterp spec fn regex_first_match(source: Seq<char>, haystack: Seq<u8>) -> Option<usize>;

/// `regex::bytes::Regex::new`, `Regex::find` and `Match::start`: compiles
/// `source`, searches `haystack` and gives the offset at which the first
/// match starts. Nothing is claimed of the offset but that it depends on
/// the two arguments alone.
#[verifier::external_body]
fn regex_find(source: &str, haystack: &[u8]) -> (r: Option<usize>)
    ensures
        r == regex_first_match(source@, haystack@),
{
    match regex::bytes::Regex::new(source) {
        Ok(expression) => match expression.find(haystack) {
            Some(found) => Some(found.start()),
            None => None,
        },
        Err(_) => None,
    }
}

/// `String::push`: appends one character.
pub assume_specification[ String::push ](text: &mut String, character: char)
    ensures
        final(text)@ == old(text)@.push(character),
;

/// The flags that open every expression: `.` matches any byte, and the
/// expression is over bytes, not over characters.
pub open spec fn flags() -> Seq<char> {
    seq!['(', '?', 's', '-', 'u', ')']
}

/// The hexadecimal digit for a number below 16.
pub open spec fn hex_char(digit: u8) -> char {
    if digit < 10 {
        (0x30 + digit) as u8 as char
    } else {
        (0x61 + digit - 10) as u8 as char
    }
}

/// The expression for one token.
pub open spec fn token_source(token: Token) -> Seq<char> {
    match token {
        Token::Any => seq!['.'],
        Token::Byte(value) => seq!['\\', 'x', hex_char(value / 16), hex_char(value % 16)],
    }
}

/// The expression for a signature.
pub open spec fn regex_source(tokens: Seq<Token>) -> Seq<char>
    decreases tokens.len(),
{
    if tokens.len() == 0 {
        flags()
    } else {
        regex_source(tokens.drop_last()) + token_source(tokens.last())
    }
}

fn hex_digit_char(digit: u8) -> (c: char)
    requires
        digit < 16,
    ensures
        c == hex_char(digit),
{
    if digit < 10 {
        (0x30 + digit) as char
    } else {
        (0x61 + digit - 10) as char
    }
}

/// Writes a signature as an expression for the engine.
pub fn render(pattern: &BytePattern) -> (source: String)
    ensures
        source@ == regex_source(pattern@),
{
    let mut source = String::new();
    source.push('(');
    source.push('?');
    source.push('s');
    source.push('-');
    source.push('u');
    source.push(')');
    assert(source@ =~= flags());
    let mut i: usize = 0;
    assert(pattern@.take(0) =~= Seq::<Token>::empty());
    while i < pattern.tokens.len()
        invariant
            i <= pattern@.len(),
            source@ == regex_source(pattern@.take(i as int)),
        decreases pattern@.len() - i,
    {
        let ghost before = source@;
        match pattern.tokens[i] {
            Token::Any => {
                source.push('.');
            },
            Token::Byte(value) => {
                source.push('\\');
                source.push('x');
                source.push(hex_digit_char(value / 16));
                source.push(hex_digit_char(value % 16));
            },
        }
        proof {
            let taken = pattern@.take(i + 1);
            assert(taken.drop_last() =~= pattern@.take(i as int));
            assert(taken.last() == pattern@[i as int]);
            assert(source@ =~= before + token_source(pattern@[i as int]));
        }
        i = i + 1;
    }
    assert(pattern@.take(pattern@.len() as int) =~= pattern@);
    source
}

/// What becomes of the engine's answer: it stands where the signature
/// really matches at the offset, and counts as no match where it does not.
pub open spec fn confirmed(tokens: Seq<Token>, buffer: Seq<u8>, candidate: Option<usize>) -> Option<
    usize,
> {
    match candidate {
        Some(at) if matches_at(tokens, buffer, at as int) => Some(at),
        _ => None,
    }
}

/// Checks the answer of the engine against the signature.
pub fn confirm_match(pattern: &BytePattern, buffer: &[u8], candidate: Option<usize>) -> (r: Option<
    usize,
>)
    ensures
        r == confirmed(pattern@, buffer@, candidate),
{
    match candidate {
        Some(at) => if pattern.matches_at(buffer, at) {
            Some(at)
        } else {
            None
        },
        None => None,
    }
}

/// Where the engine finds the signature in the buffer, checked against the
/// signature.
pub open spec fn engine_match(tokens: Seq<Token>, buffer: Seq<u8>) -> Option<usize> {
    confirmed(tokens, buffer, regex_first_match(regex_source(tokens), buffer))
}

/// Searches the signature in the buffer with the engine.
pub fn search(pattern: &BytePattern, buffer: &[u8]) -> (r: Option<usize>)
    ensures
        r == engine_match(pattern@, buffer@),
{
    let source = render(pattern);
    let candidate = regex_find(source.as_str(), buffer);
    confirm_match(pattern, buffer, candidate)
}

/// Whatever the engine answers, what `search` gives is a place where the
/// signature matches, so the lowest such place is not above it.
pub proof fn law_engine_match_is_a_match(tokens: Seq<Token>, buffer: Seq<u8>)
    ensures
        engine_match(tokens, buffer) matches Some(at) ==> {
            &&& matches_at(tokens, buffer, at as int)
            &&& first_match(tokens, buffer) is Some
            &&& first_match(tokens, buffer)->0 <= at
        },
{
    if engine_match(tokens, buffer) is Some {
        let at = engine_match(tokens, buffer)->0 as int;
        let least = lemma_least_match(tokens, buffer, at, 0);
        lemma_first_match_found(tokens, buffer, least);
    }
}

} // verus!
