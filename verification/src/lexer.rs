//! The lexer: it reads one token from the front of a stretch of code and says
//! how many bytes the token takes.

use vstd::prelude::*;

verus! {

/// The kind of a token.
#[derive(PartialEq, Eq, Structural, Debug, Clone, Copy)]
pub enum TokenKind {
    Fn,
    Let,
    If,
    Else,
    For,
    In,
    Return,
    Struct,
    While,
    True,
    False,
    Nil,
    SelfKw,
    Str,
    Dot,
    Colon,
    Equals,
    And,
    Or,
    Plus,
    Minus,
    Star,
    Slash,
    Less,
    LessEq,
    Greater,
    GreaterEq,
    EqEq,
    NotEq,
    LeftParen,
    RightParen,
    LeftCurly,
    RightCurly,
    Comma,
    Semicolon,
    Name,
    Number,
    CommentMarker,
    CodeMarker,
    Space,
    Newline,
    Error,
    CommentText,
}

/// A set of bytes that a scan runs over.
#[derive(PartialEq, Eq, Structural, Debug, Clone, Copy)]
pub enum ByteClass {
    /// Letters, digits and `_`: what a name or a number goes on with.
    Word,
    /// Space and tab: the blanks between tokens on a line.
    Blank,
    /// Space, tab, line feed, form feed and carriage return.
    White,
    /// The bytes `0x80` to `0xBF`, which go on a character begun earlier.
    Continuation,
}

pub open spec fn is_digit(b: u8) -> bool {
    0x30 <= b <= 0x39
}

pub open spec fn is_name_start(b: u8) -> bool {
    (0x61 <= b <= 0x7a) || (0x41 <= b <= 0x5a) || b == 0x5f
}

pub open spec fn in_class(class: ByteClass, b: u8) -> bool {
    match class {
        ByteClass::Word => is_name_start(b) || is_digit(b),
        ByteClass::Blank => b == 0x20 || b == 0x09,
        ByteClass::White => b == 0x20 || b == 0x09 || b == 0x0a || b == 0x0c || b == 0x0d,
        ByteClass::Continuation => 0x80 <= b <= 0xbf,
    }
}

/// Where the run of bytes of `class` that starts at `i` ends: the index of the
/// first byte at or after `i` that is not in the class, or the length of `s`.
pub open spec fn run_end(s: Seq<u8>, i: int, class: ByteClass) -> int
    decreases s.len() - i,
{
    if 0 <= i < s.len() && in_class(class, s[i]) {
        run_end(s, i + 1, class)
    } else {
        i
    }
}

/// A run ends at or after its start, inside the text, on a byte that is not
/// in the class, and holds bytes of the class only.
pub proof fn lemma_run_end(s: Seq<u8>, i: int, class: ByteClass)
    requires
        0 <= i <= s.len(),
    ensures
        i <= run_end(s, i, class) <= s.len(),
        run_end(s, i, class) < s.len() ==> !in_class(class, s[run_end(s, i, class)]),
        forall|j: int| i <= j < run_end(s, i, class) ==> in_class(class, #[trigger] s[j]),
    decreases s.len() - i,
{
    if i < s.len() && in_class(class, s[i]) {
        lemma_run_end(s, i + 1, class);
    }
}

pub open spec fn word2(w: Seq<u8>, a: u8, b: u8) -> bool {
    w.len() == 2 && w[0] == a && w[1] == b
}

pub open spec fn word3(w: Seq<u8>, a: u8, b: u8, c: u8) -> bool {
    w.len() == 3 && w[0] == a && w[1] == b && w[2] == c
}

pub open spec fn word4(w: Seq<u8>, a: u8, b: u8, c: u8, d: u8) -> bool {
    w.len() == 4 && w[0] == a && w[1] == b && w[2] == c && w[3] == d
}

pub open spec fn word5(w: Seq<u8>, a: u8, b: u8, c: u8, d: u8, e: u8) -> bool {
    w.len() == 5 && w[0] == a && w[1] == b && w[2] == c && w[3] == d && w[4] == e
}

pub open spec fn word6(w: Seq<u8>, a: u8, b: u8, c: u8, d: u8, e: u8, f: u8) -> bool {
    w.len() == 6 && w[0] == a && w[1] == b && w[2] == c && w[3] == d && w[4] == e && w[5] == f
}

/// The kind of a word: that of the keyword it spells, else `Name`.
pub open spec fn word_kind(w: Seq<u8>) -> TokenKind {
    if word2(w, 'f' as u8, 'n' as u8) {
        TokenKind::Fn
    } else if word2(w, 'i' as u8, 'f' as u8) {
        TokenKind::If
    } else if word2(w, 'i' as u8, 'n' as u8) {
        TokenKind::In
    } else if word3(w, 'l' as u8, 'e' as u8, 't' as u8) {
        TokenKind::Let
    } else if word3(w, 'f' as u8, 'o' as u8, 'r' as u8) {
        TokenKind::For
    } else if word3(w, 'n' as u8, 'i' as u8, 'l' as u8) {
        TokenKind::Nil
    } else if word4(w, 'e' as u8, 'l' as u8, 's' as u8, 'e' as u8) {
        TokenKind::Else
    } else if word4(w, 't' as u8, 'r' as u8, 'u' as u8, 'e' as u8) {
        TokenKind::True
    } else if word4(w, 's' as u8, 'e' as u8, 'l' as u8, 'f' as u8) {
        TokenKind::SelfKw
    } else if word5(w, 'w' as u8, 'h' as u8, 'i' as u8, 'l' as u8, 'e' as u8) {
        TokenKind::While
    } else if word5(w, 'f' as u8, 'a' as u8, 'l' as u8, 's' as u8, 'e' as u8) {
        TokenKind::False
    } else if word6(w, 'r' as u8, 'e' as u8, 't' as u8, 'u' as u8, 'r' as u8, 'n' as u8) {
        TokenKind::Return
    } else if word6(w, 's' as u8, 't' as u8, 'r' as u8, 'u' as u8, 'c' as u8, 't' as u8) {
        TokenKind::Struct
    } else {
        TokenKind::Name
    }
}

/// Where the string literal whose contents go on at `i` ends: the index
/// behind its closing quote. `None` where the line or the text ends first.
/// A backslash takes the byte behind it along, whatever it is but a line feed.
pub open spec fn string_close(s: Seq<u8>, i: int) -> Option<int>
    decreases s.len() - i,
{
    if i < 0 || i >= s.len() {
        None
    } else if s[i] == '"' as u8 {
        Some(i + 1)
    } else if s[i] == '\n' as u8 {
        None
    } else if s[i] == '\\' as u8 {
        if i + 1 < s.len() && s[i + 1] != '\n' as u8 {
            string_close(s, i + 2)
        } else {
            None
        }
    } else {
        string_close(s, i + 1)
    }
}

pub proof fn lemma_string_close(s: Seq<u8>, i: int)
    requires
        0 <= i,
    ensures
        string_close(s, i) matches Some(e) ==> i < e <= s.len() && s[e - 1] == '"' as u8,
    decreases s.len() - i,
{
    if i < s.len() && s[i] != '"' as u8 && s[i] != '\n' as u8 {
        if s[i] == '\\' as u8 {
            if i + 1 < s.len() && s[i + 1] != '\n' as u8 {
                lemma_string_close(s, i + 2);
            }
        } else {
            lemma_string_close(s, i + 1);
        }
    }
}

/// The operator of two bytes that `a` and `b` spell.
pub open spec fn pair_kind(a: u8, b: u8) -> Option<TokenKind> {
    if a == '<' as u8 && b == '=' as u8 {
        Some(TokenKind::LessEq)
    } else if a == '>' as u8 && b == '=' as u8 {
        Some(TokenKind::GreaterEq)
    } else if a == '=' as u8 && b == '=' as u8 {
        Some(TokenKind::EqEq)
    } else if a == '!' as u8 && b == '=' as u8 {
        Some(TokenKind::NotEq)
    } else if a == '&' as u8 && b == '&' as u8 {
        Some(TokenKind::And)
    } else if a == '|' as u8 && b == '|' as u8 {
        Some(TokenKind::Or)
    } else {
        None
    }
}

/// The operator or punctuation mark that the single byte `b` spells.
pub open spec fn single_kind(b: u8) -> Option<TokenKind> {
    if b == '.' as u8 {
        Some(TokenKind::Dot)
    } else if b == ':' as u8 {
        Some(TokenKind::Colon)
    } else if b == '=' as u8 {
        Some(TokenKind::Equals)
    } else if b == '+' as u8 {
        Some(TokenKind::Plus)
    } else if b == '-' as u8 {
        Some(TokenKind::Minus)
    } else if b == '*' as u8 {
        Some(TokenKind::Star)
    } else if b == '/' as u8 {
        Some(TokenKind::Slash)
    } else if b == '<' as u8 {
        Some(TokenKind::Less)
    } else if b == '>' as u8 {
        Some(TokenKind::Greater)
    } else if b == '(' as u8 {
        Some(TokenKind::LeftParen)
    } else if b == ')' as u8 {
        Some(TokenKind::RightParen)
    } else if b == '{' as u8 {
        Some(TokenKind::LeftCurly)
    } else if b == '}' as u8 {
        Some(TokenKind::RightCurly)
    } else if b == ',' as u8 {
        Some(TokenKind::Comma)
    } else if b == ';' as u8 {
        Some(TokenKind::Semicolon)
    } else if b == '#' as u8 {
        Some(TokenKind::CommentMarker)
    } else {
        None
    }
}

/// The token at the front of `s` and its length in bytes; `None` where `s` is
/// empty.
///
/// The longest token wins: a word goes on as far as letters, digits and `_`
/// do, and is a keyword only where the whole of it spells one; `<=` is one
/// token, not `<` and `=`. Blanks and line ends are tokens of their own. What
/// starts no token is an `Error` token: one byte, together with the
/// continuation bytes behind it, so that the next token starts a character.
pub open spec fn lex(s: Seq<u8>) -> Option<(TokenKind, int)> {
    if s.len() == 0 {
        None
    } else {
        let b = s[0];
        Some(
            if is_name_start(b) {
                let end = run_end(s, 1, ByteClass::Word);
                (word_kind(s.subrange(0, end)), end)
            } else if is_digit(b) {
                (TokenKind::Number, run_end(s, 1, ByteClass::Word))
            } else if in_class(ByteClass::Blank, b) {
                (TokenKind::Space, run_end(s, 1, ByteClass::Blank))
            } else if b == '\n' as u8 {
                (TokenKind::Newline, 1)
            } else if b == '\r' as u8 && s.len() > 1 && s[1] == '\n' as u8 {
                (TokenKind::Newline, 2)
            } else if b == '"' as u8 && string_close(s, 1) is Some {
                (TokenKind::Str, string_close(s, 1)->0)
            } else if s.len() > 1 && pair_kind(b, s[1]) is Some {
                (pair_kind(b, s[1])->0, 2)
            } else if single_kind(b) is Some {
                (single_kind(b)->0, 1)
            } else {
                (TokenKind::Error, run_end(s, 1, ByteClass::Continuation))
            },
        )
    }
}

/// Every token takes at least one byte and none beyond the text.
pub proof fn lemma_lex_bounds(s: Seq<u8>)
    ensures
        lex(s) matches Some((_, len)) ==> 1 <= len <= s.len(),
        (lex(s) is None) == (s.len() == 0),
{
    if s.len() > 0 {
        lemma_run_end(s, 1, ByteClass::Word);
        lemma_run_end(s, 1, ByteClass::Blank);
        lemma_run_end(s, 1, ByteClass::Continuation);
        lemma_string_close(s, 1);
    }
}

pub fn class_has(class: ByteClass, b: u8) -> (r: bool)
    ensures
        r == in_class(class, b),
{
    match class {
        ByteClass::Word => {
            (0x61 <= b && b <= 0x7a) || (0x41 <= b && b <= 0x5a) || b == 0x5f || (0x30 <= b
                && b <= 0x39)
        },
        ByteClass::Blank => b == 0x20 || b == 0x09,
        ByteClass::White => b == 0x20 || b == 0x09 || b == 0x0a || b == 0x0c || b == 0x0d,
        ByteClass::Continuation => 0x80 <= b && b <= 0xbf,
    }
}

/// Scans the run of bytes of `class` that starts at `start`.
pub fn scan_run(bytes: &[u8], start: usize, class: ByteClass) -> (end: usize)
    requires
        start <= bytes@.len(),
    ensures
        end == run_end(bytes@, start as int, class),
        start <= end <= bytes@.len(),
{
    let mut i: usize = start;
    while i < bytes.len() && class_has(class, bytes[i])
        invariant
            start <= i <= bytes@.len(),
            run_end(bytes@, start as int, class) == run_end(bytes@, i as int, class),
        decreases bytes@.len() - i,
    {
        i += 1;
    }
    i
}

/// Scans a string literal from inside it for its closing quote.
fn scan_string(bytes: &[u8], start: usize) -> (end: Option<usize>)
    requires
        start <= bytes@.len(),
    ensures
        match end {
            Some(e) => string_close(bytes@, start as int) == Some(e as int) && start < e
                <= bytes@.len(),
            None => string_close(bytes@, start as int) is None,
        },
{
    let mut i: usize = start;
    loop
        invariant
            start <= i <= bytes@.len(),
            string_close(bytes@, start as int) == string_close(bytes@, i as int),
        decreases bytes@.len() - i,
    {
        if i >= bytes.len() {
            return None;
        }
        let b: u8 = bytes[i];
        if b == '"' as u8 {
            return Some(i + 1);
        } else if b == '\n' as u8 {
            return None;
        } else if b == '\\' as u8 {
            if i + 1 < bytes.len() && bytes[i + 1] != '\n' as u8 {
                i += 2;
            } else {
                return None;
            }
        } else {
            i += 1;
        }
    }
}

/// Tells which keyword, if any, the first `len` bytes spell.
fn classify_word(bytes: &[u8], len: usize) -> (kind: TokenKind)
    requires
        len <= bytes@.len(),
    ensures
        kind == word_kind(bytes@.subrange(0, len as int)),
{
    let ghost w = bytes@.subrange(0, len as int);
    assert(forall|j: int| 0 <= j < len ==> w[j] == bytes@[j]);
    if len == 2 {
        let (a, b) = (bytes[0], bytes[1]);
        if a == 'f' as u8 && b == 'n' as u8 {
            TokenKind::Fn
        } else if a == 'i' as u8 && b == 'f' as u8 {
            TokenKind::If
        } else if a == 'i' as u8 && b == 'n' as u8 {
            TokenKind::In
        } else {
            TokenKind::Name
        }
    } else if len == 3 {
        let (a, b, c) = (bytes[0], bytes[1], bytes[2]);
        if a == 'l' as u8 && b == 'e' as u8 && c == 't' as u8 {
            TokenKind::Let
        } else if a == 'f' as u8 && b == 'o' as u8 && c == 'r' as u8 {
            TokenKind::For
        } else if a == 'n' as u8 && b == 'i' as u8 && c == 'l' as u8 {
            TokenKind::Nil
        } else {
            TokenKind::Name
        }
    } else if len == 4 {
        let (a, b, c, d) = (bytes[0], bytes[1], bytes[2], bytes[3]);
        if a == 'e' as u8 && b == 'l' as u8 && c == 's' as u8 && d == 'e' as u8 {
            TokenKind::Else
        } else if a == 't' as u8 && b == 'r' as u8 && c == 'u' as u8 && d == 'e' as u8 {
            TokenKind::True
        } else if a == 's' as u8 && b == 'e' as u8 && c == 'l' as u8 && d == 'f' as u8 {
            TokenKind::SelfKw
        } else {
            TokenKind::Name
        }
    } else if len == 5 {
        let (a, b, c, d, e) = (bytes[0], bytes[1], bytes[2], bytes[3], bytes[4]);
        if a == 'w' as u8 && b == 'h' as u8 && c == 'i' as u8 && d == 'l' as u8 && e == 'e' as u8 {
            TokenKind::While
        } else if a == 'f' as u8 && b == 'a' as u8 && c == 'l' as u8 && d == 's' as u8
            && e == 'e' as u8 {
            TokenKind::False
        } else {
            TokenKind::Name
        }
    } else if len == 6 {
        let (a, b, c, d, e, f) = (bytes[0], bytes[1], bytes[2], bytes[3], bytes[4], bytes[5]);
        if a == 'r' as u8 && b == 'e' as u8 && c == 't' as u8 && d == 'u' as u8 && e == 'r' as u8
            && f == 'n' as u8 {
            TokenKind::Return
        } else if a == 's' as u8 && b == 't' as u8 && c == 'r' as u8 && d == 'u' as u8
            && e == 'c' as u8 && f == 't' as u8 {
            TokenKind::Struct
        } else {
            TokenKind::Name
        }
    } else {
        TokenKind::Name
    }
}

fn classify_pair(a: u8, b: u8) -> (kind: Option<TokenKind>)
    ensures
        kind == pair_kind(a, b),
{
    if a == '<' as u8 && b == '=' as u8 {
        Some(TokenKind::LessEq)
    } else if a == '>' as u8 && b == '=' as u8 {
        Some(TokenKind::GreaterEq)
    } else if a == '=' as u8 && b == '=' as u8 {
        Some(TokenKind::EqEq)
    } else if a == '!' as u8 && b == '=' as u8 {
        Some(TokenKind::NotEq)
    } else if a == '&' as u8 && b == '&' as u8 {
        Some(TokenKind::And)
    } else if a == '|' as u8 && b == '|' as u8 {
        Some(TokenKind::Or)
    } else {
        None
    }
}

fn classify_single(b: u8) -> (kind: Option<TokenKind>)
    ensures
        kind == single_kind(b),
{
    if b == '.' as u8 {
        Some(TokenKind::Dot)
    } else if b == ':' as u8 {
        Some(TokenKind::Colon)
    } else if b == '=' as u8 {
        Some(TokenKind::Equals)
    } else if b == '+' as u8 {
        Some(TokenKind::Plus)
    } else if b == '-' as u8 {
        Some(TokenKind::Minus)
    } else if b == '*' as u8 {
        Some(TokenKind::Star)
    } else if b == '/' as u8 {
        Some(TokenKind::Slash)
    } else if b == '<' as u8 {
        Some(TokenKind::Less)
    } else if b == '>' as u8 {
        Some(TokenKind::Greater)
    } else if b == '(' as u8 {
        Some(TokenKind::LeftParen)
    } else if b == ')' as u8 {
        Some(TokenKind::RightParen)
    } else if b == '{' as u8 {
        Some(TokenKind::LeftCurly)
    } else if b == '}' as u8 {
        Some(TokenKind::RightCurly)
    } else if b == ',' as u8 {
        Some(TokenKind::Comma)
    } else if b == ';' as u8 {
        Some(TokenKind::Semicolon)
    } else if b == '#' as u8 {
        Some(TokenKind::CommentMarker)
    } else {
        None
    }
}

/// Reads the token at the front of `source`: its kind and its length in
/// bytes. The end of the text gives no token.
pub fn next_token(source: &[u8]) -> (token: Option<(TokenKind, usize)>)
    ensures
        match token {
            Some((kind, len)) => lex(source@) == Some((kind, len as int)) && 1 <= len
                <= source@.len(),
            None => lex(source@) is None && source@.len() == 0,
        },
{
    proof {
        lemma_lex_bounds(source@);
    }
    if source.len() == 0 {
        return None;
    }
    let b: u8 = source[0];
    if class_has(ByteClass::Word, b) {
        let end = scan_run(source, 1, ByteClass::Word);
        if 0x30 <= b && b <= 0x39 {
            Some((TokenKind::Number, end))
        } else {
            Some((classify_word(source, end), end))
        }
    } else if class_has(ByteClass::Blank, b) {
        Some((TokenKind::Space, scan_run(source, 1, ByteClass::Blank)))
    } else if b == '\n' as u8 {
        Some((TokenKind::Newline, 1))
    } else if b == '\r' as u8 && source.len() > 1 && source[1] == '\n' as u8 {
        Some((TokenKind::Newline, 2))
    } else {
        if b == '"' as u8 {
            if let Some(end) = scan_string(source, 1) {
                return Some((TokenKind::Str, end));
            }
        }
        if source.len() > 1 {
            if let Some(kind) = classify_pair(b, source[1]) {
                return Some((kind, 2));
            }
        }
        match classify_single(b) {
            Some(kind) => Some((kind, 1)),
            None => Some((TokenKind::Error, scan_run(source, 1, ByteClass::Continuation))),
        }
    }
}

} // verus!
