//! Preprocessing tokens.

use arcstr::{ArcStr, Substr};
use vstd::prelude::*;
use vstd::string::StrSliceExecFns;
use vstd::utf8::encode_utf8;

verus! {

/// A reference-counted piece of text, from the `arcstr` crate.
#[verifier::external_type_specification]
#[verifier::external_body]
pub struct ExSubstr(arcstr::Substr);

/// The characters of a piece of text.
pub uninterp spec fn substr_text(substr: Substr) -> Seq<char>;

/// The text of a piece.
///
/// Calls `arcstr::Substr::as_str`, which gives the characters of the piece.
#[verifier::external_body]
pub(crate) fn substr_str(substr: &Substr) -> (result: &str)
    ensures
        result@ == substr_text(*substr),
{
    substr.as_str()
}

/// A piece that is the whole of a text.
///
/// Calls `arcstr::Substr::full` on a new `arcstr::ArcStr`. The piece holds the
/// characters of the text. The crate counts bytes in 32 bits and panics on
/// longer texts, which are left out here.
#[verifier::external_body]
pub(crate) fn substr_full(text: &str) -> (result: Substr)
    requires
        encode_utf8(text@).len() <= u32::MAX,
    ensures
        substr_text(result) == text@,
{
    Substr::full(ArcStr::from(text))
}

/// Another handle on the same piece.
///
/// Calls `clone` of `arcstr::Substr`, which shares the text.
#[verifier::external_body]
pub(crate) fn substr_clone(substr: &Substr) -> (result: Substr)
    ensures
        substr_text(result) == substr_text(*substr),
{
    substr.clone()
}

/// A constant as it is spelled in the source.
#[derive(Debug, PartialEq)]
pub enum LiteralToken {
    Int(Substr),
    Float(Substr),
    /// Adjacent string literals, quotes and all.
    Str(Vec<Substr>),
    /// A character constant, quotes and all.
    Char(Substr),
}

/// A preprocessing token.
#[derive(Debug, PartialEq)]
pub enum Token {
    Id(String),
    Keyword(String),
    Whitespace(String),
    LeftParen,
    RightParen,
    Comma,
    Hash,
    Literal(LiteralToken),
    /// Any other token, as it is spelled.
    Other(String),
}

/// What a [`Token`] is.
pub enum TokenView {
    Id(Seq<char>),
    Keyword(Seq<char>),
    Whitespace(Seq<char>),
    LeftParen,
    RightParen,
    Comma,
    Hash,
    Int(Seq<char>),
    Float(Seq<char>),
    Str(Seq<Seq<char>>),
    Char(Seq<char>),
    Other(Seq<char>),
}

/// The texts of a list of pieces.
pub open spec fn substr_texts(pieces: Seq<Substr>) -> Seq<Seq<char>> {
    Seq::new(pieces.len(), |i: int| substr_text(pieces[i]))
}

impl View for Token {
    type V = TokenView;

    open spec fn view(&self) -> TokenView {
        match *self {
            Token::Id(name) => TokenView::Id(name@),
            Token::Keyword(word) => TokenView::Keyword(word@),
            Token::Whitespace(spaces) => TokenView::Whitespace(spaces@),
            Token::LeftParen => TokenView::LeftParen,
            Token::RightParen => TokenView::RightParen,
            Token::Comma => TokenView::Comma,
            Token::Hash => TokenView::Hash,
            Token::Literal(LiteralToken::Int(text)) => TokenView::Int(substr_text(text)),
            Token::Literal(LiteralToken::Float(text)) => TokenView::Float(substr_text(text)),
            Token::Literal(LiteralToken::Str(parts)) => TokenView::Str(substr_texts(parts@)),
            Token::Literal(LiteralToken::Char(text)) => TokenView::Char(substr_text(text)),
            Token::Other(text) => TokenView::Other(text@),
        }
    }
}

/// What a list of tokens is.
pub open spec fn tokens_view(tokens: Seq<Token>) -> Seq<TokenView> {
    Seq::new(tokens.len(), |i: int| tokens[i]@)
}

/// The texts of a list of names.
pub open spec fn texts_view(names: Seq<String>) -> Seq<Seq<char>> {
    Seq::new(names.len(), |i: int| names[i]@)
}

/// The texts from `from` on, separated by spaces.
pub open spec fn joined(texts: Seq<Seq<char>>, from: nat) -> Seq<char>
    decreases texts.len() - from,
{
    if from >= texts.len() {
        Seq::empty()
    } else {
        (if from == 0 {
            texts[0]
        } else {
            " "@ + texts[from as int]
        }) + joined(texts, from + 1)
    }
}

/// How a token is spelled.
pub open spec fn token_text(token: TokenView) -> Seq<char> {
    match token {
        TokenView::Id(name) => name,
        TokenView::Keyword(word) => word,
        TokenView::Whitespace(spaces) => spaces,
        TokenView::LeftParen => "("@,
        TokenView::RightParen => ")"@,
        TokenView::Comma => ","@,
        TokenView::Hash => "#"@,
        TokenView::Int(text) => text,
        TokenView::Float(text) => text,
        TokenView::Str(parts) => joined(parts, 0),
        TokenView::Char(text) => text,
        TokenView::Other(text) => text,
    }
}

/// Copies the handles of a list of pieces.
fn copy_pieces(pieces: &Vec<Substr>) -> (result: Vec<Substr>)
    ensures
        substr_texts(result@) == substr_texts(pieces@),
{
    let mut copy: Vec<Substr> = Vec::new();
    let mut index: usize = 0;
    while index < pieces.len()
        invariant
            index <= pieces@.len(),
            copy@.len() == index,
            forall|i: int|
                0 <= i < index ==> substr_text(#[trigger] copy@[i]) == substr_text(pieces@[i]),
        decreases pieces@.len() - index,
    {
        copy.push(substr_clone(&pieces[index]));
        index += 1;
    }
    assert(substr_texts(copy@) =~= substr_texts(pieces@));
    copy
}

/// The pieces in one text, separated by spaces.
fn join_pieces(pieces: &Vec<Substr>) -> (result: String)
    ensures
        result@ == joined(substr_texts(pieces@), 0),
{
    let ghost texts = substr_texts(pieces@);
    let mut text = String::new();
    assert(text@ + joined(texts, 0) =~= joined(texts, 0));
    let mut index: usize = 0;
    while index < pieces.len()
        invariant
            index <= pieces@.len(),
            texts == substr_texts(pieces@),
            text@ + joined(texts, index as nat) == joined(texts, 0),
        decreases pieces@.len() - index,
    {
        let ghost before = text@;
        if index != 0 {
            text.append(" ");
        }
        text.append(substr_str(&pieces[index]));
        assert(text@ + joined(texts, index as nat + 1) =~= before + joined(texts, index as nat));
        index += 1;
    }
    assert(text@ + joined(texts, index as nat) =~= text@);
    text
}

impl Token {
    /// A copy of this token.
    pub fn duplicate(&self) -> (result: Token)
        ensures
            result@ == self@,
    {
        match self {
            Token::Id(name) => Token::Id(name.clone()),
            Token::Keyword(word) => Token::Keyword(word.clone()),
            Token::Whitespace(spaces) => Token::Whitespace(spaces.clone()),
            Token::LeftParen => Token::LeftParen,
            Token::RightParen => Token::RightParen,
            Token::Comma => Token::Comma,
            Token::Hash => Token::Hash,
            Token::Literal(LiteralToken::Int(text)) => Token::Literal(
                LiteralToken::Int(substr_clone(text)),
            ),
            Token::Literal(LiteralToken::Float(text)) => Token::Literal(
                LiteralToken::Float(substr_clone(text)),
            ),
            Token::Literal(LiteralToken::Str(parts)) => Token::Literal(
                LiteralToken::Str(copy_pieces(parts)),
            ),
            Token::Literal(LiteralToken::Char(text)) => Token::Literal(
                LiteralToken::Char(substr_clone(text)),
            ),
            Token::Other(text) => Token::Other(text.clone()),
        }
    }

    /// How this token is spelled.
    pub fn to_string(&self) -> (result: String)
        ensures
            result@ == token_text(self@),
    {
        match self {
            Token::Id(name) => name.clone(),
            Token::Keyword(word) => word.clone(),
            Token::Whitespace(spaces) => spaces.clone(),
            Token::LeftParen => "(".to_owned(),
            Token::RightParen => ")".to_owned(),
            Token::Comma => ",".to_owned(),
            Token::Hash => "#".to_owned(),
            Token::Literal(LiteralToken::Int(text)) => substr_str(text).to_owned(),
            Token::Literal(LiteralToken::Float(text)) => substr_str(text).to_owned(),
            Token::Literal(LiteralToken::Str(parts)) => join_pieces(parts),
            Token::Literal(LiteralToken::Char(text)) => substr_str(text).to_owned(),
            Token::Other(text) => text.clone(),
        }
    }
}

/// Whether a character is white space.
pub open spec fn white(character: char) -> bool {
    let code = character as u32;
    ||| 0x9 <= code <= 0xd
    ||| code == 0x20
    ||| code == 0x85
    ||| code == 0xa0
    ||| code == 0x1680
    ||| 0x2000 <= code <= 0x200a
    ||| code == 0x2028
    ||| code == 0x2029
    ||| code == 0x202f
    ||| code == 0x205f
    ||| code == 0x3000
}

/// Whether a character is white space.
fn is_white(character: char) -> (result: bool)
    ensures
        result == white(character),
{
    let code: u32 = character as u32;
    (0x9 <= code && code <= 0xd) || code == 0x20 || code == 0x85 || code == 0xa0 || code == 0x1680
        || (0x2000 <= code && code <= 0x200a) || code == 0x2028 || code == 0x2029 || code == 0x202f
        || code == 0x205f || code == 0x3000
}

/// A text without the white space at its start.
pub open spec fn trimmed_start(text: Seq<char>) -> Seq<char>
    decreases text.len(),
{
    if text.len() > 0 && white(text[0]) {
        trimmed_start(text.drop_first())
    } else {
        text
    }
}

/// A text without the white space at its end.
pub open spec fn trimmed_end(text: Seq<char>) -> Seq<char>
    decreases text.len(),
{
    if text.len() > 0 && white(text.last()) {
        trimmed_end(text.drop_last())
    } else {
        text
    }
}

/// A text without the white space at its ends.
pub open spec fn trimmed(text: Seq<char>) -> Seq<char> {
    trimmed_end(trimmed_start(text))
}

/// A text without the white space at its ends.
pub fn trim(text: &str) -> (result: &str)
    ensures
        result@ == trimmed(text@),
{
    let length: usize = text.unicode_len();
    let mut start: usize = 0;
    assert(text@.skip(0) =~= text@);
    while start < length && is_white(text.get_char(start))
        invariant
            length == text@.len(),
            start <= length,
            trimmed_start(text@.skip(start as int)) == trimmed_start(text@),
        decreases length - start,
    {
        assert(text@.skip(start as int).drop_first() =~= text@.skip(start + 1));
        start += 1;
    }
    let ghost rest = text@.skip(start as int);
    assert(rest == trimmed_start(text@));
    let mut end: usize = length;
    assert(text@.subrange(start as int, end as int) =~= rest);
    while end > start && is_white(text.get_char(end - 1))
        invariant
            length == text@.len(),
            start <= end <= length,
            trimmed_end(text@.subrange(start as int, end as int)) == trimmed_end(rest),
        decreases end,
    {
        assert(text@.subrange(start as int, end as int).drop_last() =~= text@.subrange(
            start as int,
            end - 1,
        ));
        end -= 1;
    }
    text.substring_char(start, end)
}

/// A text with a backslash before each backslash and double quote from `from`
/// on.
pub open spec fn escaped(text: Seq<char>, from: nat) -> Seq<char>
    decreases text.len() - from,
{
    if from >= text.len() {
        Seq::empty()
    } else {
        let character = text[from as int];
        (if character == '\\' || character == '"' {
            seq!['\\', character]
        } else {
            seq![character]
        }) + escaped(text, from + 1)
    }
}

/// A text with a backslash before each backslash and double quote.
pub fn escape(text: &str) -> (result: String)
    ensures
        result@ == escaped(text@, 0),
{
    let mut result = String::new();
    assert(result@ + escaped(text@, 0) =~= escaped(text@, 0));
    let length: usize = text.unicode_len();
    let mut index: usize = 0;
    while index < length
        invariant
            length == text@.len(),
            index <= length,
            result@ + escaped(text@, index as nat) == escaped(text@, 0),
        decreases length - index,
    {
        let ghost before = result@;
        let character = text.get_char(index);
        if character == '\\' || character == '"' {
            crate::text::push_char(&mut result, '\\');
        }
        crate::text::push_char(&mut result, character);
        assert(result@ + escaped(text@, index as nat + 1) =~= before + escaped(
            text@,
            index as nat,
        ));
        index += 1;
    }
    assert(result@ + escaped(text@, index as nat) =~= result@);
    result
}

/// The texts with backslashes and double quotes escaped.
pub open spec fn escaped_parts(parts: Seq<Seq<char>>) -> Seq<Seq<char>> {
    Seq::new(parts.len(), |i: int| escaped(parts[i], 0))
}

/// The text that a token contributes to a stringified argument.
pub open spec fn quoted_text(token: TokenView) -> Seq<char> {
    match token {
        TokenView::Whitespace(_) => " "@,
        TokenView::Str(parts) => joined(escaped_parts(parts), 0),
        TokenView::Char(text) => escaped(text, 0),
        _ => token_text(token),
    }
}

/// The pieces escaped, in one text, separated by spaces.
fn escape_pieces(pieces: &Vec<Substr>) -> (result: String)
    ensures
        result@ == joined(escaped_parts(substr_texts(pieces@)), 0),
{
    let ghost texts = escaped_parts(substr_texts(pieces@));
    let mut text = String::new();
    assert(text@ + joined(texts, 0) =~= joined(texts, 0));
    let mut index: usize = 0;
    while index < pieces.len()
        invariant
            index <= pieces@.len(),
            texts == escaped_parts(substr_texts(pieces@)),
            text@ + joined(texts, index as nat) == joined(texts, 0),
        decreases pieces@.len() - index,
    {
        let ghost before = text@;
        if index != 0 {
            text.append(" ");
        }
        text.append(escape(substr_str(&pieces[index])).as_str());
        assert(text@ + joined(texts, index as nat + 1) =~= before + joined(texts, index as nat));
        index += 1;
    }
    assert(text@ + joined(texts, index as nat) =~= text@);
    text
}

impl Token {
    /// The text that this token contributes to a stringified argument.
    pub fn to_quoted(&self) -> (result: String)
        ensures
            result@ == quoted_text(self@),
    {
        match self {
            Token::Whitespace(_) => " ".to_owned(),
            Token::Literal(LiteralToken::Str(parts)) => escape_pieces(parts),
            Token::Literal(LiteralToken::Char(text)) => escape(substr_str(text)),
            _ => self.to_string(),
        }
    }
}

} // verus!
