//! Byte signatures: a sequence of tokens, each a fixed byte or a wildcard,
//! written as white-space separated words (`"8D 34 85 ? ? ? ? 89 15"`).

use vstd::prelude::*;
use vstd::string::StringSliceAdditionalSpecFns;

verus! {

/// One position of a signature.
#[derive(Clone, Copy, Debug, PartialEq, Eq, Structural)]
pub enum Token {
    /// Exactly this byte.
    Byte(u8),
    /// Any byte at all.
    Any,
}

/// A compiled signature. A candidate window is exactly as long as the
/// signature has tokens.
#[derive(Debug)]
pub struct BytePattern {
    pub tokens: Vec<Token>,
}

impl View for BytePattern {
    type V = Seq<Token>;

    open spec fn view(&self) -> Seq<Token> {
        self.tokens@
    }
}

/// The bytes that separate two words of a signature: ASCII white space.
pub open spec fn is_separator(byte: u8) -> bool {
    byte == 0x20 || (0x09 <= byte <= 0x0d)
}

/// The value of a hexadecimal digit, upper or lower case.
pub open spec fn hex_value(byte: u8) -> Option<u8> {
    if 0x30 <= byte <= 0x39 {
        Some((byte - 0x30) as u8)
    } else if 0x41 <= byte <= 0x46 {
        Some((byte - 0x41 + 10) as u8)
    } else if 0x61 <= byte <= 0x66 {
        Some((byte - 0x61 + 10) as u8)
    } else {
        None
    }
}

/// What one word of a signature stands for: `?` is the wildcard, two
/// hexadecimal digits are a byte, anything else is no token.
pub open spec fn token_of(word: Seq<u8>) -> Option<Token> {
    if word.len() == 1 && word[0] == 0x3f {
        Some(Token::Any)
    } else if word.len() == 2 && hex_value(word[0]) is Some && hex_value(word[1]) is Some {
        Some(Token::Byte((hex_value(word[0])->0 * 16 + hex_value(word[1])->0) as u8))
    } else {
        None
    }
}

/// How many bytes the word at the head of `text` has.
pub open spec fn word_len(text: Seq<u8>) -> nat
    decreases text.len(),
{
    if text.len() == 0 || is_separator(text[0]) {
        0
    } else {
        1 + word_len(text.drop_first())
    }
}

/// The tokens that a signature text denotes, or `None` where one of its
/// words is no token.
pub open spec fn signature_tokens(text: Seq<u8>) -> Option<Seq<Token>>
    decreases text.len(),
    via signature_tokens_decreases
{
    if text.len() == 0 {
        Some(Seq::empty())
    } else if is_separator(text[0]) {
        signature_tokens(text.drop_first())
    } else {
        let n = word_len(text) as int;
        match (token_of(text.take(n)), signature_tokens(text.skip(n))) {
            (Some(token), Some(rest)) => Some(seq![token] + rest),
            _ => None,
        }
    }
}

/// A word is no longer than the text it heads, and not empty where the text
/// starts with a byte that is no separator.
pub proof fn lemma_word_len_bounds(text: Seq<u8>)
    ensures
        word_len(text) <= text.len(),
        text.len() > 0 && !is_separator(text[0]) ==> word_len(text) >= 1,
    decreases text.len(),
{
    if text.len() > 0 && !is_separator(text[0]) {
        lemma_word_len_bounds(text.drop_first());
    }
}

#[via_fn]
proof fn signature_tokens_decreases(text: Seq<u8>) {
    lemma_word_len_bounds(text);
}

/// Whether `token` accepts `byte`.
pub open spec fn token_accepts(token: Token, byte: u8) -> bool {
    match token {
        Token::Any => true,
        Token::Byte(value) => value == byte,
    }
}

/// Whether the window of `buffer` that starts at `at` lies inside the buffer
/// and every fixed token equals the byte under it.
pub open spec fn matches_at(tokens: Seq<Token>, buffer: Seq<u8>, at: int) -> bool {
    &&& 0 <= at
    &&& at + tokens.len() <= buffer.len()
    &&& forall|j: int| 0 <= j < tokens.len() ==> token_accepts(tokens[j], #[trigger] buffer[at + j])
}

/// Whether `at` is the lowest index at which the signature matches.
pub open spec fn is_first_match(tokens: Seq<Token>, buffer: Seq<u8>, at: int) -> bool {
    &&& matches_at(tokens, buffer, at)
    &&& forall|k: int| 0 <= k < at ==> !matches_at(tokens, buffer, k)
}

/// The lowest index at which the signature matches, if it matches anywhere.
pub open spec fn first_match(tokens: Seq<Token>, buffer: Seq<u8>) -> Option<int> {
    if exists|at: int| is_first_match(tokens, buffer, at) {
        Some(choose|at: int| is_first_match(tokens, buffer, at))
    } else {
        None
    }
}

/// A lowest matching index is the value of `first_match`.
pub proof fn lemma_first_match_found(tokens: Seq<Token>, buffer: Seq<u8>, at: int)
    requires
        is_first_match(tokens, buffer, at),
    ensures
        first_match(tokens, buffer) == Some(at),
{
    let chosen = choose|other: int| is_first_match(tokens, buffer, other);
    assert(is_first_match(tokens, buffer, chosen));
    if chosen < at {
        assert(!matches_at(tokens, buffer, chosen));
    }
    if at < chosen {
        assert(!matches_at(tokens, buffer, at));
    }
}

/// Where no index up to the last possible window matches, `first_match` is
/// `None`.
pub proof fn lemma_first_match_absent(tokens: Seq<Token>, buffer: Seq<u8>)
    requires
        forall|k: int| 0 <= k && k + tokens.len() <= buffer.len() ==> !matches_at(tokens, buffer, k),
    ensures
        first_match(tokens, buffer) is None,
{
    if exists|at: int| is_first_match(tokens, buffer, at) {
        let at = choose|at: int| is_first_match(tokens, buffer, at);
        assert(matches_at(tokens, buffer, at));
        assert(false);
    }
}

/// The tokens read so far, followed by what the rest of the text denotes.
spec fn followed_by(done: Seq<Token>, rest: Option<Seq<Token>>) -> Option<Seq<Token>> {
    match rest {
        Some(tokens) => Some(done + tokens),
        None => None,
    }
}

proof fn lemma_word_len_step(text: Seq<u8>, start: int, end: int)
    requires
        0 <= start <= end < text.len(),
        !is_separator(text[end]),
        word_len(text.skip(start)) == (end - start) + word_len(text.skip(end)),
    ensures
        word_len(text.skip(start)) == (end + 1 - start) + word_len(text.skip(end + 1)),
{
    assert(text.skip(end).drop_first() =~= text.skip(end + 1));
}

fn is_separator_byte(byte: u8) -> (r: bool)
    ensures
        r == is_separator(byte),
{
    byte == 0x20 || (0x09 <= byte && byte <= 0x0d)
}

fn hex_digit(byte: u8) -> (r: Option<u8>)
    ensures
        r == hex_value(byte),
{
    if 0x30 <= byte && byte <= 0x39 {
        Some(byte - 0x30)
    } else if 0x41 <= byte && byte <= 0x46 {
        Some(byte - 0x41 + 10)
    } else if 0x61 <= byte && byte <= 0x66 {
        Some(byte - 0x61 + 10)
    } else {
        None
    }
}

fn read_token(text: &[u8], start: usize, end: usize) -> (r: Option<Token>)
    requires
        start <= end <= text@.len(),
    ensures
        r == token_of(text@.subrange(start as int, end as int)),
{
    let ghost word = text@.subrange(start as int, end as int);
    if end - start == 1 {
        assert(word[0] == text@[start as int]);
        if text[start] == 0x3f {
            Some(Token::Any)
        } else {
            None
        }
    } else if end - start == 2 {
        assert(word[0] == text@[start as int]);
        assert(word[1] == text@[start + 1]);
        match (hex_digit(text[start]), hex_digit(text[start + 1])) {
            (Some(high), Some(low)) => Some(Token::Byte(high * 16 + low)),
            _ => None,
        }
    } else {
        None
    }
}

impl BytePattern {
    /// Compiles a signature text. White space separates its words; each word
    /// is `?` or two hexadecimal digits. A text with any other word compiles
    /// to nothing.
    pub fn compile(text: &str) -> (r: Option<BytePattern>)
        ensures
            match r {
                Some(pattern) => signature_tokens(text.spec_bytes()) == Some(pattern@),
                None => signature_tokens(text.spec_bytes()) is None,
            },
    {
        let bytes = text.as_bytes();
        let mut tokens: Vec<Token> = Vec::new();
        let mut i: usize = 0;
        assert(bytes@.skip(0) =~= bytes@);
        while i < bytes.len()
            invariant
                bytes@ == text.spec_bytes(),
                i <= bytes@.len(),
                signature_tokens(bytes@) == followed_by(
                    tokens@,
                    signature_tokens(bytes@.skip(i as int)),
                ),
            decreases bytes@.len() - i,
        {
            let ghost rest = bytes@.skip(i as int);
            if is_separator_byte(bytes[i]) {
                assert(rest.drop_first() =~= bytes@.skip(i + 1));
                i = i + 1;
            } else {
                let start = i;
                let mut end = i;
                while end < bytes.len() && !is_separator_byte(bytes[end])
                    invariant
                        start <= end <= bytes@.len(),
                        word_len(bytes@.skip(start as int)) == (end - start) + word_len(
                            bytes@.skip(end as int),
                        ),
                    decreases bytes@.len() - end,
                {
                    proof {
                        lemma_word_len_step(bytes@, start as int, end as int);
                    }
                    end = end + 1;
                }
                proof {
                    lemma_word_len_bounds(rest);
                    assert(rest[0] == bytes@[i as int]);
                    assert(word_len(bytes@.skip(end as int)) == 0) by {
                        if end < bytes@.len() {
                            assert(bytes@.skip(end as int)[0] == bytes@[end as int]);
                        }
                    }
                    assert(word_len(rest) == end - start);
                    assert(rest.take(end - start) =~= bytes@.subrange(start as int, end as int));
                    assert(rest.skip(end - start) =~= bytes@.skip(end as int));
                }
                match read_token(bytes, start, end) {
                    None => {
                        return None;
                    },
                    Some(token) => {
                        proof {
                            let after = signature_tokens(bytes@.skip(end as int));
                            if after is Some {
                                assert(tokens@ + (seq![token] + after->0) =~= tokens@.push(token)
                                    + after->0);
                            }
                        }
                        tokens.push(token);
                    },
                }
                i = end;
            }
        }
        assert(tokens@ + Seq::<Token>::empty() =~= tokens@);
        Some(BytePattern { tokens })
    }

    /// The number of tokens, which is the length of a matching window.
    pub fn len(&self) -> (n: usize)
        ensures
            n == self@.len(),
    {
        self.tokens.len()
    }

    /// Whether the signature matches the window of `buffer` that starts at
    /// `at`. A window that does not lie inside the buffer matches nothing.
    pub fn matches_at(&self, buffer: &[u8], at: usize) -> (r: bool)
        ensures
            r == matches_at(self@, buffer@, at as int),
    {
        let n = self.tokens.len();
        if at > buffer.len() || n > buffer.len() - at {
            return false;
        }
        let mut j: usize = 0;
        while j < n
            invariant
                n == self@.len(),
                at + n <= buffer@.len() <= usize::MAX,
                j <= n,
                forall|k: int| 0 <= k < j ==> token_accepts(self@[k], #[trigger] buffer@[at + k]),
            decreases n - j,
        {
            let accepted = match self.tokens[j] {
                Token::Any => true,
                Token::Byte(value) => value == buffer[at + j],
            };
            if !accepted {
                assert(!token_accepts(self@[j as int], buffer@[at + j]));
                return false;
            }
            j = j + 1;
        }
        true
    }
}

/// Finds the lowest index at which `pattern` matches in `buffer`: every
/// fixed token equals the byte under it, and the whole window lies inside
/// the buffer.
pub fn find_first(buffer: &[u8], pattern: &BytePattern) -> (r: Option<usize>)
    ensures
        match r {
            Some(at) => is_first_match(pattern@, buffer@, at as int) && first_match(
                pattern@,
                buffer@,
            ) == Some(at as int),
            None => first_match(pattern@, buffer@) is None && forall|k: int|
                !matches_at(pattern@, buffer@, k),
        },
{
    let n = pattern.len();
    if n > buffer.len() {
        proof {
            lemma_first_match_absent(pattern@, buffer@);
        }
        return None;
    }
    let last = buffer.len() - n;
    let mut at: usize = 0;
    loop
        invariant
            last + n == buffer@.len(),
            n == pattern@.len(),
            at <= last,
            forall|k: int| 0 <= k < at ==> !matches_at(pattern@, buffer@, k),
        decreases last - at,
    {
        if pattern.matches_at(buffer, at) {
            proof {
                lemma_first_match_found(pattern@, buffer@, at as int);
            }
            return Some(at);
        }
        if at == last {
            proof {
                lemma_first_match_absent(pattern@, buffer@);
            }
            return None;
        }
        at = at + 1;
    }
}

/// Whether no token of the signature is a wildcard.
pub open spec fn is_wildcard_free(tokens: Seq<Token>) -> bool {
    forall|j: int| 0 <= j < tokens.len() ==> #[trigger] tokens[j] is Byte
}

/// The bytes that a wildcard-free signature spells.
pub open spec fn literal_of(tokens: Seq<Token>) -> Seq<u8> {
    Seq::new(
        tokens.len(),
        |j: int|
            match tokens[j] {
                Token::Byte(value) => value,
                Token::Any => 0u8,
            },
    )
}

/// Whether `needle` stands in `buffer` at `at`, byte for byte.
pub open spec fn occurs_at(needle: Seq<u8>, buffer: Seq<u8>, at: int) -> bool {
    &&& 0 <= at
    &&& at + needle.len() <= buffer.len()
    &&& buffer.subrange(at, at + needle.len()) == needle
}

/// Below a matching index there is a lowest one.
pub proof fn lemma_least_match(tokens: Seq<Token>, buffer: Seq<u8>, at: int, low: int) -> (least:
    int)
    requires
        matches_at(tokens, buffer, at),
        0 <= low <= at,
        forall|k: int| 0 <= k < low ==> !matches_at(tokens, buffer, k),
    ensures
        is_first_match(tokens, buffer, least),
        low <= least <= at,
    decreases at - low,
{
    if matches_at(tokens, buffer, low) {
        low
    } else {
        lemma_least_match(tokens, buffer, at, low + 1)
    }
}

/// A wildcard-free signature matches exactly where its bytes occur.
pub proof fn lemma_literal_match_is_occurrence(tokens: Seq<Token>, buffer: Seq<u8>, at: int)
    requires
        is_wildcard_free(tokens),
    ensures
        matches_at(tokens, buffer, at) == occurs_at(literal_of(tokens), buffer, at),
{
    let needle = literal_of(tokens);
    if matches_at(tokens, buffer, at) {
        assert forall|j: int| 0 <= j < needle.len() implies buffer.subrange(
            at,
            at + needle.len(),
        )[j] == needle[j] by {
            assert(tokens[j] is Byte);
            assert(token_accepts(tokens[j], buffer[at + j]));
        }
        assert(buffer.subrange(at, at + needle.len()) =~= needle);
    }
    if occurs_at(needle, buffer, at) {
        assert forall|j: int| 0 <= j < tokens.len() implies token_accepts(
            tokens[j],
            #[trigger] buffer[at + j],
        ) by {
            assert(tokens[j] is Byte);
            assert(buffer.subrange(at, at + needle.len())[j] == needle[j]);
        }
    }
}

/// A wildcard-free signature whose bytes occur somewhere in the buffer is
/// found at the lowest index at which they occur.
pub proof fn law_literal_signature_found_at_first_occurrence(
    tokens: Seq<Token>,
    buffer: Seq<u8>,
    at: int,
)
    requires
        is_wildcard_free(tokens),
        occurs_at(literal_of(tokens), buffer, at),
    ensures
        first_match(tokens, buffer) is Some,
        occurs_at(literal_of(tokens), buffer, first_match(tokens, buffer)->0),
        first_match(tokens, buffer)->0 <= at,
        forall|k: int|
            0 <= k < first_match(tokens, buffer)->0 ==> !occurs_at(literal_of(tokens), buffer, k),
{
    lemma_literal_match_is_occurrence(tokens, buffer, at);
    let least = lemma_least_match(tokens, buffer, at, 0);
    lemma_first_match_found(tokens, buffer, least);
    lemma_literal_match_is_occurrence(tokens, buffer, least);
    assert forall|k: int| 0 <= k < least implies !occurs_at(literal_of(tokens), buffer, k) by {
        lemma_literal_match_is_occurrence(tokens, buffer, k);
    }
}

/// Whether two buffers differ only under wildcards of the window at `at`.
pub open spec fn differ_only_under_wildcards(
    tokens: Seq<Token>,
    buffer: Seq<u8>,
    other: Seq<u8>,
    at: int,
) -> bool {
    &&& buffer.len() == other.len()
    &&& forall|i: int|
        0 <= i < buffer.len() && buffer[i] != other[i] ==> at <= i < at + tokens.len() && tokens[i
            - at] is Any
}

/// Whether a signature matches at an index does not depend on the bytes
/// that lie under its wildcards.
pub proof fn law_wildcard_bytes_do_not_matter(
    tokens: Seq<Token>,
    buffer: Seq<u8>,
    other: Seq<u8>,
    at: int,
)
    requires
        differ_only_under_wildcards(tokens, buffer, other, at),
    ensures
        matches_at(tokens, buffer, at) == matches_at(tokens, other, at),
{
    if 0 <= at && at + tokens.len() <= buffer.len() {
        assert forall|j: int| 0 <= j < tokens.len() implies token_accepts(tokens[j], buffer[at + j])
            == token_accepts(tokens[j], other[at + j]) by {
            if buffer[at + j] != other[at + j] {
                assert(tokens[at + j - at] is Any);
            }
        }
        if matches_at(tokens, buffer, at) {
            assert forall|j: int| 0 <= j < tokens.len() implies token_accepts(
                tokens[j],
                #[trigger] other[at + j],
            ) by {
                assert(token_accepts(tokens[j], buffer[at + j]));
            }
        }
        if matches_at(tokens, other, at) {
            assert forall|j: int| 0 <= j < tokens.len() implies token_accepts(
                tokens[j],
                #[trigger] buffer[at + j],
            ) by {
                assert(token_accepts(tokens[j], other[at + j]));
            }
        }
    }
}

} // verus!
