use std::string::FromUtf8Error;
use string_builder::Builder;
use vstd::prelude::*;
use vstd::std_specs::iter::IteratorSpec;
use vstd::string::{axiom_spec_iter, next_postcondition};

verus! {

#[verifier::external_type_specification]
#[verifier::external_body]
pub struct ExBuilder(Builder);

#[verifier::external_type_specification]
#[verifier::external_body]
pub struct ExFromUtf8Error(FromUtf8Error);

/// The characters a builder holds, in the order they were appended.
pub uninterp spec fn builder_chars(b: Builder) -> Seq<char>;

/// Whether the bytes a builder holds are the UTF-8 encoding of `builder_chars`.
pub uninterp spec fn builder_is_text(b: Builder) -> bool;

/// What `char::is_alphanumeric` returns for `c`.
pub uninterp spec fn alphanumeric(c: char) -> bool;

/// Relies on `string_builder::Builder::new`: a builder over an empty buffer.
#[verifier::external_body]
fn new_builder(capacity: usize) -> (r: Builder)
    ensures
        builder_chars(r) == Seq::<char>::empty(),
        builder_is_text(r),
{
    Builder::new(capacity)
}

/// Relies on `string_builder::Builder::append` with a `char`: the UTF-8
/// encoding of `c` is written at the end of the buffer.
#[verifier::external_body]
fn append_char(b: &mut Builder, c: char)
    ensures
        builder_is_text(*old(b)) ==> builder_is_text(*final(b)),
        builder_is_text(*old(b)) ==> builder_chars(*final(b)) == builder_chars(*old(b)).push(c),
{
    b.append(c)
}

/// Relies on `string_builder::Builder::string`: `String::from_utf8` of the
/// buffer, which succeeds when the buffer is valid UTF-8.
#[verifier::external_body]
fn builder_string(b: Builder) -> (r: Result<String, FromUtf8Error>)
    ensures
        builder_is_text(b) ==> r is Ok,
        builder_is_text(b) ==> r->Ok_0@ == builder_chars(b),
{
    b.string()
}

/// Relies on `char::is_alphanumeric` (Unicode letters and numbers).
#[verifier::external_body]
fn is_alphanumeric(c: char) -> (r: bool)
    ensures
        r == alphanumeric(c),
{
    c.is_alphanumeric()
}

/// The kind of a token.
#[derive(Debug, PartialEq, Eq, Structural, Clone, Copy)]
pub enum Type {
    Dot,
    Identifier,
    Pipe,
}

/// A token: its kind and the text it was read from.
#[derive(Debug, PartialEq, Clone)]
pub struct Token {
    pub token_type: Type,
    pub text: String,
}

/// The kind and text of a token.
pub type TokenModel = (Type, Seq<char>);

impl Token {
    pub open spec fn view(&self) -> TokenModel {
        (self.token_type, self.text@)
    }
}

/// The kind and text of an optional token.
pub open spec fn token_view(t: Option<Token>) -> Option<TokenModel> {
    match t {
        Some(t) => Some(t@),
        None => None,
    }
}

/// An ASCII letter, which may start an identifier.
pub open spec fn is_letter(c: char) -> bool {
    ('a' <= c && c <= 'z') || ('A' <= c && c <= 'Z')
}

/// The end of the run of alphanumeric characters that starts at `i`.
pub open spec fn word_end(chars: Seq<char>, i: int) -> int
    decreases chars.len() - i,
{
    if 0 <= i < chars.len() && alphanumeric(chars[i]) {
        word_end(chars, i + 1)
    } else {
        i
    }
}

/// One scan of `chars` from `pos`: the token found, if any, and the position
/// after it. A character that starts no token is consumed and gives none.
pub open spec fn scan(chars: Seq<char>, pos: int) -> (Option<TokenModel>, int) {
    if pos < 0 || pos >= chars.len() {
        (None, pos)
    } else {
        let c = chars[pos];
        if c == '.' {
            (Some((Type::Dot, seq!['.'])), pos + 1)
        } else if is_letter(c) {
            let e = word_end(chars, pos + 1);
            (Some((Type::Identifier, chars.subrange(pos, e))), e)
        } else if c == '|' {
            (Some((Type::Pipe, seq!['|'])), pos + 1)
        } else {
            (None, pos + 1)
        }
    }
}

pub proof fn lemma_word_end_bounds(chars: Seq<char>, i: int)
    requires
        0 <= i <= chars.len(),
    ensures
        i <= word_end(chars, i) <= chars.len(),
        forall|k: int| i <= k < word_end(chars, i) ==> alphanumeric(#[trigger] chars[k]),
    decreases chars.len() - i,
{
    if i < chars.len() && alphanumeric(chars[i]) {
        lemma_word_end_bounds(chars, i + 1);
    }
}

/// A scan from inside the text moves forward and stays within it.
pub proof fn lemma_scan_advances(chars: Seq<char>, pos: int)
    requires
        0 <= pos < chars.len(),
    ensures
        pos < scan(chars, pos).1 <= chars.len(),
{
    if is_letter(chars[pos]) {
        lemma_word_end_bounds(chars, pos + 1);
    }
}

/// A text whose first character is neither a dot, an ASCII letter nor a pipe
/// gives no token on the first scan, although characters remain: the scan
/// only consumes that character.
pub proof fn lemma_unknown_first_char_gives_no_token(text: Seq<char>)
    requires
        text.len() > 0,
        text[0] != '.',
        !is_letter(text[0]),
        text[0] != '|',
    ensures
        scan(text, 0).0 is None,
        scan(text, 0).1 == 1,
{
}

/// Splits a filter text into tokens, one at a time.
#[derive(Debug)]
pub struct Lexer {
    chars: Vec<char>,
    pos: usize,
    total: usize,
}

impl Lexer {
    /// The characters of the text being read.
    pub closed spec fn text(&self) -> Seq<char> {
        self.chars@
    }

    /// The index of the first character not yet consumed.
    pub closed spec fn position(&self) -> int {
        self.pos as int
    }

    pub closed spec fn inv(&self) -> bool {
        &&& self.total == self.chars.len()
        &&& self.pos <= self.total
    }

    pub proof fn lemma_position_bounds(&self)
        requires
            self.inv(),
        ensures
            0 <= self.position() <= self.text().len(),
    {
    }

    pub fn on(text: String) -> (r: Lexer)
        ensures
            r.inv(),
            r.text() == text@,
            r.position() == 0,
    {
        broadcast use axiom_spec_iter, next_postcondition;

        let mut it = text.as_str().chars();
        let mut chars: Vec<char> = Vec::new();
        loop
            invariant
                chars@ + it.remaining() == text@,
                it.decrease() is Some,
            ensures
                chars@ == text@,
            decreases it.decrease()->0,
        {
            match it.next() {
                Some(c) => chars.push(c),
                None => {
                    assert(chars@ =~= chars@ + it.remaining());
                    break;
                },
            }
        }
        let total = chars.len();
        Lexer { chars, pos: 0, total }
    }

    /// Consumes and returns the next token, or nothing when a scan finds none.
    pub fn next_token(&mut self) -> (r: Option<Token>)
        requires
            old(self).inv(),
        ensures
            final(self).inv(),
            final(self).text() == old(self).text(),
            final(self).position() == scan(old(self).text(), old(self).position()).1,
            token_view(r) == scan(old(self).text(), old(self).position()).0,
    {
        if self.pos == self.total {
            None
        } else {
            self.remaining()
        }
    }

    fn remaining(&mut self) -> (r: Option<Token>)
        requires
            old(self).inv(),
            old(self).pos < old(self).total,
        ensures
            final(self).inv(),
            final(self).text() == old(self).text(),
            final(self).position() == scan(old(self).text(), old(self).position()).1,
            token_view(r) == scan(old(self).text(), old(self).position()).0,
    {
        let next = self.advance();
        if next == '.' {
            let text = String::from_str(".");
            proof {
                reveal_strlit(".");
            }
            Some(Token { token_type: Type::Dot, text })
        } else if ('a' <= next && next <= 'z') || ('A' <= next && next <= 'Z') {
            let text = self.consume_alnum(next);
            Some(Token { token_type: Type::Identifier, text })
        } else if next == '|' {
            let text = String::from_str("|");
            proof {
                reveal_strlit("|");
            }
            Some(Token { token_type: Type::Pipe, text })
        } else {
            None
        }
    }

    fn consume_alnum(&mut self, first: char) -> (r: String)
        requires
            old(self).inv(),
            old(self).pos > 0,
            old(self).chars@[old(self).pos - 1] == first,
        ensures
            final(self).inv(),
            final(self).text() == old(self).text(),
            final(self).position() == word_end(old(self).text(), old(self).position()),
            r@ == old(self).text().subrange(old(self).position() - 1, final(self).position()),
    {
        let ghost start = self.pos as int;
        let mut builder = new_builder(1);
        append_char(&mut builder, first);

        let mut done = false;
        proof {
            assert(builder_chars(builder) =~= self.chars@.subrange(start - 1, start));
        }
        while self.has_remaining() && !done
            invariant
                self.inv(),
                self.chars@ == old(self).chars@,
                1 <= start <= self.pos,
                builder_is_text(builder),
                builder_chars(builder) == self.chars@.subrange(start - 1, self.pos as int),
                word_end(self.chars@, self.pos as int) == word_end(self.chars@, start),
                done ==> word_end(self.chars@, self.pos as int) == self.pos,
            decreases (self.total - self.pos) * 2 + if done { 0int } else { 1int },
        {
            let peek = self.peek();
            match peek {
                None => done = true,
                Some(c) => {
                    if is_alphanumeric(c) {
                        append_char(&mut builder, c);
                        self.advance();
                        proof {
                            assert(builder_chars(builder) =~= self.chars@.subrange(
                                start - 1,
                                self.pos as int,
                            ));
                        }
                    } else {
                        done = true;
                    }
                },
            }
        }
        match builder_string(builder) {
            Ok(s) => s,
            Err(_) => String::new(),
        }
    }

    pub(crate) fn offset(&self) -> (r: usize)
        ensures
            r == self.position(),
    {
        self.pos
    }

    /// Whether characters remain that no scan has consumed.
    pub fn has_remaining(&self) -> (r: bool)
        requires
            self.inv(),
        ensures
            r == (self.position() < self.text().len()),
    {
        self.pos < self.total
    }

    fn advance(&mut self) -> (c: char)
        requires
            old(self).inv(),
            old(self).pos < old(self).total,
        ensures
            final(self).inv(),
            final(self).chars == old(self).chars,
            final(self).pos == old(self).pos + 1,
            c == old(self).chars@[old(self).pos as int],
    {
        let c = self.chars[self.pos];
        self.pos += 1;
        c
    }

    fn peek(&self) -> (r: Option<char>)
        requires
            self.inv(),
        ensures
            r == (if self.pos < self.total {
                Some(self.chars@[self.pos as int])
            } else {
                None::<char>
            }),
    {
        if self.pos < self.total {
            Some(self.chars[self.pos])
        } else {
            None
        }
    }
}

} // verus!
