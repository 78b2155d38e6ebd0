use vstd::prelude::*;

use crate::text::{is_string_literal_text, strip_ends, strip_first_and_last, quoted};

verus! {

/// The delimiter of a group of tokens.
#[derive(Debug, Clone, Copy, PartialEq, Eq, Structural)]
pub enum Delimiter {
    /// `( ... )`
    Parenthesis,
    /// `{ ... }`
    Brace,
    /// `[ ... ]`
    Bracket,
    /// A group without visible delimiters.
    Invisible,
}

/// A literal token, by its text as written in source: a string literal keeps its
/// quotes and escapes, a number its digits and suffix.
#[derive(Debug, Clone, PartialEq)]
pub struct Literal {
    pub text: String,
}

impl Literal {
    /// The literal whose source text is `text`.
    pub fn new(text: String) -> (r: Literal)
        ensures
            r.text == text,
    {
        Literal { text }
    }
}

/// A token of an attribute or of a macro's input, as the parsers of this library read it.
#[derive(Debug, PartialEq)]
pub enum Token {
    /// An identifier or keyword, by its text.
    Ident(String),
    /// A punctuation character.
    Punct(char),
    /// A literal.
    Literal(Literal),
    /// A delimited group and the tokens inside it.
    Group(Delimiter, Vec<Token>),
}

/// The first token is the identifier `name`.
pub open spec fn is_ident_named(t: Token, name: Seq<char>) -> bool {
    t matches Token::Ident(s) && s@ == name
}

/// The token is a string literal.
pub open spec fn is_string_token(t: Token) -> bool {
    t matches Token::Literal(l) && is_string_literal_text(l.text@)
}

/// The characters inside the quotes of a string literal token.
pub open spec fn string_token_contents(t: Token) -> Seq<char> {
    strip_ends(t->Literal_0.text@)
}

/// A cursor over a sequence of tokens, read from the front.
pub struct TokenCursor<'a> {
    tokens: &'a Vec<Token>,
    pos: usize,
}

impl<'a> TokenCursor<'a> {
    #[verifier::type_invariant]
    spec fn cursor_inv(self) -> bool {
        self.pos <= self.tokens@.len()
    }

    /// The tokens that are still to be read.
    pub closed spec fn remaining(self) -> Seq<Token> {
        self.tokens@.skip(self.pos as int)
    }

    /// A cursor at the first of `tokens`.
    pub fn new(tokens: &'a Vec<Token>) -> (r: TokenCursor<'a>)
        ensures
            r.remaining() == tokens@,
    {
        let r = TokenCursor { tokens, pos: 0 };
        assert(r.tokens@.skip(0) =~= r.tokens@);
        r
    }

    /// Whether no token is left.
    pub fn is_empty(&self) -> (r: bool)
        ensures
            r == (self.remaining().len() == 0),
    {
        proof { use_type_invariant(self); }
        self.pos == self.tokens.len()
    }

    /// The next token, without reading it.
    pub fn peek(&self) -> (r: Option<&Token>)
        ensures
            r is None <==> self.remaining().len() == 0,
            r matches Some(t) ==> *t == self.remaining()[0],
    {
        proof { use_type_invariant(self); }
        if self.pos < self.tokens.len() {
            Some(&self.tokens[self.pos])
        } else {
            None
        }
    }

    /// Reads one token, if any is left.
    pub fn advance(&mut self)
        ensures
            old(self).remaining().len() == 0 ==> final(self).remaining() == old(self).remaining(),
            old(self).remaining().len() > 0 ==> final(self).remaining() == old(self).remaining().drop_first(),
    {
        proof { use_type_invariant(&*self); }
        if self.pos < self.tokens.len() {
            self.pos = self.pos + 1;
        }
        assert(self.tokens@.skip(self.pos as int) =~= old(self).remaining().drop_first()
            || self.pos == old(self).pos);
    }

    /// Whether the next token is the punctuation `c`.
    pub fn peek_punct(&self, c: char) -> (r: bool)
        ensures
            r == (self.remaining().len() > 0 && self.remaining()[0] == Token::Punct(c)),
    {
        match self.peek() {
            Some(Token::Punct(p)) => *p == c,
            _ => false,
        }
    }

    /// Reads an identifier and gives its text.
    pub fn expect_ident(&mut self) -> (r: String)
        requires
            old(self).remaining().len() > 0,
            old(self).remaining()[0] is Ident,
        ensures
            r@ == old(self).remaining()[0]->Ident_0@,
            final(self).remaining() == old(self).remaining().drop_first(),
    {
        let s = match self.peek() {
            Some(Token::Ident(s)) => s.clone(),
            _ => String::new(),
        };
        self.advance();
        s
    }

    /// Reads the punctuation `c`.
    pub fn expect_punct(&mut self, c: char)
        requires
            old(self).remaining().len() > 0,
            old(self).remaining()[0] == Token::Punct(c),
        ensures
            final(self).remaining() == old(self).remaining().drop_first(),
    {
        self.advance();
    }

    /// Reads a string literal and gives the characters between its quotes.
    pub fn expect_string(&mut self) -> (r: String)
        requires
            old(self).remaining().len() > 0,
            is_string_token(old(self).remaining()[0]),
        ensures
            r@ == string_token_contents(old(self).remaining()[0]),
            final(self).remaining() == old(self).remaining().drop_first(),
    {
        let s = match self.peek() {
            Some(Token::Literal(l)) => strip_first_and_last(l.text.as_str()),
            _ => String::new(),
        };
        self.advance();
        s
    }
}

/// Whether `t` is a string literal token.
pub fn token_is_string(t: &Token) -> (r: bool)
    ensures
        r == is_string_token(*t),
{
    match t {
        Token::Literal(l) => l.text.as_str().unicode_len() >= 2 && quoted(l.text.as_str()),
        _ => false,
    }
}

} // verus!
