mod token;

pub use token::{keyword_kind, Kind, Token};

use vstd::prelude::*;

use crate::parser::ast::ByteOffset;
use crate::parser::error::Error;

verus! {

/// Whether `b` may start an identifier: a letter or `_`.
pub open spec fn is_ident_start(b: u8) -> bool {
    (97 <= b <= 122) || (65 <= b <= 90) || b == 95
}

/// Whether `b` may continue an identifier: a letter, a digit or `_`.
pub open spec fn is_ident_byte(b: u8) -> bool {
    is_ident_start(b) || (48 <= b <= 57)
}

/// Whether `b` is an ASCII hex digit.
pub open spec fn is_hex_digit(b: u8) -> bool {
    (48 <= b <= 57) || (97 <= b <= 102) || (65 <= b <= 70)
}

/// Whether three bytes encode a white-space character of three bytes in UTF-8.
pub open spec fn is_ws3(a: u8, b: u8, c: u8) -> bool {
    ||| (a == 0xE1 && b == 0x9A && c == 0x80)
    ||| (a == 0xE2 && b == 0x80 && ((0x80 <= c <= 0x8A) || c == 0xA8 || c == 0xA9 || c == 0xAF))
    ||| (a == 0xE2 && b == 0x81 && c == 0x9F)
    ||| (a == 0xE3 && b == 0x80 && c == 0x80)
}

/// The length in bytes of the white-space character at `i`, or zero where
/// none stands there. White space is that of Unicode, encoded in UTF-8.
pub open spec fn ws_len(src: Seq<u8>, i: nat) -> nat {
    let n = src.len();
    if i >= n {
        0
    } else {
        let b0 = src[i as int];
        if b0 == 9 || b0 == 10 || b0 == 11 || b0 == 12 || b0 == 13 || b0 == 32 {
            1
        } else if i + 1 < n && b0 == 0xC2 && (src[i + 1int] == 0x85 || src[i + 1int] == 0xA0) {
            2
        } else if i + 2 < n && is_ws3(b0, src[i + 1int], src[i + 2int]) {
            3
        } else {
            0
        }
    }
}

/// The first position from `i` on that holds no identifier byte.
pub open spec fn ident_end(src: Seq<u8>, i: nat) -> nat
    decreases src.len() - i,
{
    if i < src.len() && is_ident_byte(src[i as int]) {
        ident_end(src, i + 1)
    } else {
        i
    }
}

/// The first position from `i` on that holds no hex digit.
pub open spec fn hex_end(src: Seq<u8>, i: nat) -> nat
    decreases src.len() - i,
{
    if i < src.len() && is_hex_digit(src[i as int]) {
        hex_end(src, i + 1)
    } else {
        i
    }
}

/// The first position from `i` on that holds `stop`, or `other`, or the end.
pub open spec fn find_either(src: Seq<u8>, i: nat, stop: u8, other: u8) -> nat
    decreases src.len() - i,
{
    if i < src.len() && src[i as int] != stop && src[i as int] != other {
        find_either(src, i + 1, stop, other)
    } else {
        i
    }
}

/// The kind of a token of one punctuation byte.
pub open spec fn punct_kind(b: u8) -> Option<Kind> {
    if b == 43 { Some(Kind::Plus) }
    else if b == 45 { Some(Kind::Minus) }
    else if b == 42 { Some(Kind::Star) }
    else if b == 33 { Some(Kind::Bang) }
    else if b == 38 { Some(Kind::Ampersand) }
    else if b == 91 { Some(Kind::LBracket) }
    else if b == 93 { Some(Kind::RBracket) }
    else if b == 40 { Some(Kind::LParen) }
    else if b == 41 { Some(Kind::RParen) }
    else if b == 123 { Some(Kind::LBrace) }
    else if b == 125 { Some(Kind::RBrace) }
    else if b == 58 { Some(Kind::Colon) }
    else if b == 61 { Some(Kind::Equal) }
    else if b == 44 { Some(Kind::Comma) }
    else if b == 46 { Some(Kind::Dot) }
    else { None }
}

/// The token that starts at `pos`, which holds neither white space nor `;`,
/// and the position after it. A byte that starts no token gives an `Eof`
/// token, and the position stays.
pub open spec fn lex_token(src: Seq<u8>, pos: nat) -> (Result<Token, Error>, nat)
    recommends
        pos < src.len(),
{
    let b = src[pos as int];
    match punct_kind(b) {
        Some(k) => (Ok(Token { kind: k, offset: ByteOffset { start: pos as usize, end: (pos + 1) as usize } }), pos + 1),
        None => if b == 36 {
            let e = hex_end(src, pos + 1);
            (Ok(Token { kind: Kind::HexNumber, offset: ByteOffset { start: (pos + 1) as usize, end: e as usize } }), e)
        } else if b == 34 {
            let start = pos + 1;
            let e = find_either(src, start, 34, 10);
            if e < src.len() && src[e as int] == 34 {
                (Ok(Token { kind: Kind::String, offset: ByteOffset { start: start as usize, end: e as usize } }), e + 1)
            } else {
                (Err(Error::UnterminatedString(start as usize)), e)
            }
        } else if is_ident_start(b) {
            let e = ident_end(src, pos);
            (Ok(Token { kind: keyword_kind(src.subrange(pos as int, e as int)), offset: ByteOffset { start: pos as usize, end: e as usize } }), e)
        } else {
            (Ok(Token { kind: Kind::Eof, offset: ByteOffset { start: pos as usize, end: (pos + 1) as usize } }), pos)
        },
    }
}

/// The next token from `pos` on, past white space and `;` comments, and the
/// position after it; `None` and the end of the source where no token is left.
pub open spec fn lex_next(src: Seq<u8>, pos: nat) -> (Option<Result<Token, Error>>, nat)
    decreases src.len() - pos,
{
    if pos >= src.len() {
        (None, src.len())
    } else if ws_len(src, pos) > 0 {
        lex_next(src, pos + ws_len(src, pos))
    } else if src[pos as int] == 59 {
        let e = find_either(src, pos, 10, 10);
        if pos < e <= src.len() {
            lex_next(src, e)
        } else {
            (None, src.len())
        }
    } else {
        let (t, p) = lex_token(src, pos);
        (Some(t), p)
    }
}

/// Scanning for identifier bytes stays between `i` and the end.
pub proof fn lemma_ident_end(src: Seq<u8>, i: nat)
    requires
        i <= src.len(),
    ensures
        i <= ident_end(src, i) <= src.len(),
    decreases src.len() - i,
{
    if i < src.len() && is_ident_byte(src[i as int]) {
        lemma_ident_end(src, i + 1);
    }
}

/// Scanning for hex digits stays between `i` and the end.
pub proof fn lemma_hex_end(src: Seq<u8>, i: nat)
    requires
        i <= src.len(),
    ensures
        i <= hex_end(src, i) <= src.len(),
    decreases src.len() - i,
{
    if i < src.len() && is_hex_digit(src[i as int]) {
        lemma_hex_end(src, i + 1);
    }
}

/// Scanning for a stop byte stays between `i` and the end.
pub proof fn lemma_find_either(src: Seq<u8>, i: nat, stop: u8, other: u8)
    requires
        i <= src.len(),
    ensures
        i <= find_either(src, i, stop, other) <= src.len(),
    decreases src.len() - i,
{
    if i < src.len() && src[i as int] != stop && src[i as int] != other {
        lemma_find_either(src, i + 1, stop, other);
    }
}

/// Reading a token never moves back nor past the end; it moves on past every
/// token but `Eof`, which covers the one byte it stands on; and every token
/// lies in the source.
pub proof fn lemma_lex_next(src: Seq<u8>, pos: nat)
    requires
        pos <= src.len(),
        src.len() <= usize::MAX,
    ensures
        ({
            let (r, p) = lex_next(src, pos);
            &&& pos <= p <= src.len()
            &&& r is None ==> p == src.len()
            &&& r matches Some(Ok(t)) ==> t.offset.start <= t.offset.end <= src.len()
            &&& r matches Some(Ok(t)) ==> (t.kind != Kind::Eof ==> p > pos)
            &&& r matches Some(Ok(t)) ==> (t.kind == Kind::Eof ==> t.offset.start == p && t.offset.end == p + 1)
        }),
    decreases src.len() - pos,
{
    if pos >= src.len() {
    } else if ws_len(src, pos) > 0 {
        lemma_lex_next(src, pos + ws_len(src, pos));
    } else if src[pos as int] == 59 {
        lemma_find_either(src, pos, 10, 10);
        let e = find_either(src, pos, 10, 10);
        if pos < e <= src.len() {
            lemma_lex_next(src, e);
        }
    } else {
        let b = src[pos as int];
        lemma_hex_end(src, pos + 1);
        lemma_find_either(src, pos + 1, 34, 10);
        lemma_ident_end(src, pos);
        lemma_ident_end(src, pos + 1);
        assert(is_ident_start(b) ==> ident_end(src, pos) == ident_end(src, pos + 1));
        assert(keyword_kind(src.subrange(pos as int, ident_end(src, pos) as int)) != Kind::Eof);
    }
}

/// Turns an optional reference to a result inside out: a result of an
/// optional reference.
pub trait TransposeRef<'a, T, E> {
    fn transpose(self) -> Result<Option<&'a T>, &'a E>;
}

impl<'lex> TransposeRef<'lex, Token, Error> for Option<&'lex Result<Token, Error>> {
    fn transpose(self) -> (r: Result<Option<&'lex Token>, &'lex Error>)
        ensures
            match self {
                None => r == Ok::<Option<&Token>, &Error>(None),
                Some(Ok(t)) => r == Ok::<Option<&Token>, &Error>(Some(t)),
                Some(Err(e)) => r == Err::<Option<&Token>, &Error>(e),
            },
    {
        match self {
            Some(result) => match result {
                Ok(token) => Ok(Some(token)),
                Err(e) => Err(e),
            },
            None => Ok(None),
        }
    }
}

/// The source as a stream of tokens: its bytes and the position reached.
pub struct Lexer<'lex> {
    source: &'lex [u8],
    pos: usize,
}

impl<'lex> Lexer<'lex> {
    #[verifier::type_invariant]
    spec fn inv(self) -> bool {
        self.pos <= self.source@.len()
    }

    /// The bytes of the source.
    pub closed spec fn src(self) -> Seq<u8> {
        self.source@
    }

    /// The position reached in the source.
    pub closed spec fn pos(self) -> nat {
        self.pos as nat
    }

    /// The position reached.
    pub fn position(&self) -> (p: usize)
        ensures
            p == self.pos(),
            p <= self.src().len(),
    {
        proof {
            use_type_invariant(self);
        }
        self.pos
    }

    /// A lexer at the start of `source`.
    pub fn new(source: &'lex [u8]) -> (l: Self)
        ensures
            l.src() == source@,
            l.pos() == 0,
    {
        Lexer { source, pos: 0 }
    }

    /// The next token, where there is one, without moving on.
    pub fn peek(&self) -> (r: Option<Result<Token, Error>>)
        ensures
            r == lex_next(self.src(), self.pos()).0,
            self.pos() <= self.src().len() <= usize::MAX,
    {
        proof {
            use_type_invariant(self);
        }
        let mut copy = Lexer { source: self.source, pos: self.pos };
        copy.next()
    }

    /// Whether no token is left: the source is spent, or the next byte starts
    /// no token.
    pub fn is_empty(&self) -> (b: bool)
        ensures
            b == match lex_next(self.src(), self.pos()).0 {
                None => true,
                Some(Ok(t)) => t.kind == Kind::Eof,
                Some(Err(_)) => false,
            },
    {
        match self.peek() {
            None => true,
            Some(Ok(token)) => token.kind == Kind::Eof,
            Some(Err(_)) => false,
        }
    }

    /// The next token, moving past it.
    pub fn next(&mut self) -> (r: Option<Result<Token, Error>>)
        ensures
            final(self).src() == old(self).src(),
            (r, final(self).pos()) == lex_next(old(self).src(), old(self).pos()),
            old(self).pos() <= old(self).src().len() <= usize::MAX,
    {
        proof {
            use_type_invariant(&*self);
        }
        let _ = self.source.len();
        let p = self.skip_to_token();
        self.pos = p;
        if p >= self.source.len() {
            return None;
        }
        Some(self.lex_token())
    }

    /// The position of the next token, past white space and comments; the end
    /// of the source where none is left.
    fn skip_to_token(&self) -> (p: usize)
        ensures
            p <= self.src().len(),
            lex_next(self.src(), self.pos()) == lex_next(self.src(), p as nat),
            p == self.src().len() || (ws_len(self.src(), p as nat) == 0 && self.src()[p as int] != 59),
    {
        proof {
            use_type_invariant(self);
        }
        let len = self.source.len();
        let mut pos = self.pos;
        while pos < len
            invariant
                pos <= len,
                len == self.source@.len(),
                lex_next(self.source@, self.pos as nat) == lex_next(self.source@, pos as nat),
            decreases len - pos,
        {
            let w = whitespace_len(self.source, pos);
            if w > 0 {
                pos = pos + w;
            } else if self.source[pos] == 59 {
                pos = find_either_at(self.source, pos + 1, 10, 10);
            } else {
                return pos;
            }
        }
        pos
    }

    /// Reads the token at the position, which holds neither white space nor `;`.
    fn lex_token(&mut self) -> (r: Result<Token, Error>)
        requires
            old(self).pos < old(self).source@.len(),
        ensures
            final(self).src() == old(self).src(),
            (r, final(self).pos()) == lex_token(old(self).src(), old(self).pos()),
    {
        let pos = self.pos;
        let b = self.source[pos];
        match punct(b) {
            Some(k) => {
                self.pos = pos + 1;
                return Ok(Token::new(k, ByteOffset { start: pos, end: pos + 1 }));
            },
            None => {},
        }
        if b == 36 {
            let e = hex_end_at(self.source, pos + 1);
            self.pos = e;
            Ok(Token::new(Kind::HexNumber, ByteOffset { start: pos + 1, end: e }))
        } else if b == 34 {
            let start = pos + 1;
            let e = find_either_at(self.source, start, 34, 10);
            self.pos = e;
            if e < self.source.len() && self.source[e] == 34 {
                self.pos = e + 1;
                Ok(Token::new(Kind::String, ByteOffset { start, end: e }))
            } else {
                Err(Error::UnterminatedString(start))
            }
        } else if is_ident_start_byte(b) {
            let e = ident_end_at(self.source, pos);
            self.pos = e;
            Ok(Token::from_ident(&self.source[pos..e], pos, e))
        } else {
            Ok(Token::new(Kind::Eof, ByteOffset { start: pos, end: pos + 1 }))
        }
    }
}

/// The kind of a token of one punctuation byte.
fn punct(b: u8) -> (k: Option<Kind>)
    ensures
        k == punct_kind(b),
{
    if b == 43 { Some(Kind::Plus) }
    else if b == 45 { Some(Kind::Minus) }
    else if b == 42 { Some(Kind::Star) }
    else if b == 33 { Some(Kind::Bang) }
    else if b == 38 { Some(Kind::Ampersand) }
    else if b == 91 { Some(Kind::LBracket) }
    else if b == 93 { Some(Kind::RBracket) }
    else if b == 40 { Some(Kind::LParen) }
    else if b == 41 { Some(Kind::RParen) }
    else if b == 123 { Some(Kind::LBrace) }
    else if b == 125 { Some(Kind::RBrace) }
    else if b == 58 { Some(Kind::Colon) }
    else if b == 61 { Some(Kind::Equal) }
    else if b == 44 { Some(Kind::Comma) }
    else if b == 46 { Some(Kind::Dot) }
    else { None }
}

/// Whether `b` may start an identifier.
fn is_ident_start_byte(b: u8) -> (r: bool)
    ensures
        r == is_ident_start(b),
{
    (97 <= b && b <= 122) || (65 <= b && b <= 90) || b == 95
}

/// The length in bytes of the white-space character at `i` (see `ws_len`).
pub(crate) fn whitespace_len(src: &[u8], i: usize) -> (w: usize)
    requires
        i < src@.len(),
    ensures
        w == ws_len(src@, i as nat),
{
    let n = src.len();
    let b0 = src[i];
    if b0 == 9 || b0 == 10 || b0 == 11 || b0 == 12 || b0 == 13 || b0 == 32 {
        1
    } else if i + 1 < n && b0 == 0xC2 && (src[i + 1] == 0x85 || src[i + 1] == 0xA0) {
        2
    } else if n - i > 2 {
        let b1 = src[i + 1];
        let b2 = src[i + 2];
        if (b0 == 0xE1 && b1 == 0x9A && b2 == 0x80)
            || (b0 == 0xE2 && b1 == 0x80 && ((0x80 <= b2 && b2 <= 0x8A) || b2 == 0xA8 || b2 == 0xA9 || b2 == 0xAF))
            || (b0 == 0xE2 && b1 == 0x81 && b2 == 0x9F)
            || (b0 == 0xE3 && b1 == 0x80 && b2 == 0x80) {
            3
        } else {
            0
        }
    } else {
        0
    }
}

/// The first position from `i` on that holds no identifier byte.
fn ident_end_at(src: &[u8], i: usize) -> (e: usize)
    requires
        i <= src@.len(),
    ensures
        e == ident_end(src@, i as nat),
        i <= e <= src@.len(),
{
    let mut j = i;
    while j < src.len() && ((97 <= src[j] && src[j] <= 122) || (65 <= src[j] && src[j] <= 90) || src[j] == 95 || (48 <= src[j] && src[j] <= 57))
        invariant
            i <= j <= src@.len(),
            ident_end(src@, j as nat) == ident_end(src@, i as nat),
        decreases src@.len() - j,
    {
        j = j + 1;
    }
    j
}

/// The first position from `i` on that holds no hex digit.
fn hex_end_at(src: &[u8], i: usize) -> (e: usize)
    requires
        i <= src@.len(),
    ensures
        e == hex_end(src@, i as nat),
        i <= e <= src@.len(),
{
    let mut j = i;
    while j < src.len() && ((48 <= src[j] && src[j] <= 57) || (97 <= src[j] && src[j] <= 102) || (65 <= src[j] && src[j] <= 70))
        invariant
            i <= j <= src@.len(),
            hex_end(src@, j as nat) == hex_end(src@, i as nat),
        decreases src@.len() - j,
    {
        j = j + 1;
    }
    j
}

/// The first position from `i` on that holds `stop`, or `other`, or the end.
fn find_either_at(src: &[u8], i: usize, stop: u8, other: u8) -> (e: usize)
    requires
        i <= src@.len(),
    ensures
        e == find_either(src@, i as nat, stop, other),
        i <= e <= src@.len(),
{
    let mut j = i;
    while j < src.len() && src[j] != stop && src[j] != other
        invariant
            i <= j <= src@.len(),
            find_either(src@, j as nat, stop, other) == find_either(src@, i as nat, stop, other),
        decreases src@.len() - j,
    {
        j = j + 1;
    }
    j
}

} // verus!
