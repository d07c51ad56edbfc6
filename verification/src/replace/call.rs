//! The arguments and the replacement list of a macro call.

use crate::replace::model::{
    advanced, argument_of, arguments_spec, bare, body_texts, front, hash_at, hash_error, left,
    lexed_as, only_token, opening_spec, opens, operand, parameter_position, past_spaces, pasted,
    pasted_onto, quoted_from, spelling, string_text, stringified, substituted, without_end_spaces,
    without_start_spaces, ArgumentsView, CallView, LexedView, OpeningView, PieceView, Streams,
};
use crate::replace::stream::{
    copy_names, item_view, items_view, CppError, CppErrorView, Item, ItemView, Locatable, Peekable,
};
use crate::replace::token::{
    joined, substr_full, substr_texts, texts_view, tokens_view, trim, trimmed, LiteralToken, Token,
    TokenView,
};
use crate::text::{concat2, concat3, same_text};
use vstd::prelude::*;

verus! {

/// What the lexer makes of one text.
pub struct LexedEntry {
    pub text: String,
    /// The token that the whole text is, if it is one.
    pub token: Option<Token>,
}

/// What the lexer makes of the texts that `##` pastes together.
///
/// The result of `##` is a preprocessing token, not necessarily an identifier:
/// `1 ## 1` is the integer 11. The lexer decides, so its answers are kept
/// here.
pub struct Lexed {
    pub entries: Vec<LexedEntry>,
}

/// The lexer's answer about one text.
pub open spec fn lexed_entry_view(entry: LexedEntry) -> LexedView {
    LexedView {
        text: entry.text@,
        token: match entry.token {
            Some(token) => Some(token@),
            None => None,
        },
    }
}

/// What the lexer gave for a text.
pub open spec fn lexer_view(tokens: Seq<Option<Token>>) -> Seq<Option<TokenView>> {
    Seq::new(
        tokens.len(),
        |i: int|
            match tokens[i] {
                Some(token) => Some(token@),
                None => None,
            },
    )
}

impl View for Lexed {
    type V = Seq<LexedView>;

    open spec fn view(&self) -> Seq<LexedView> {
        Seq::new(self.entries@.len(), |i: int| lexed_entry_view(self.entries@[i]))
    }
}

impl Lexed {
    /// No answers.
    pub fn new() -> (result: Lexed)
        ensures
            result@ == Seq::<LexedView>::empty(),
    {
        let result = Lexed { entries: Vec::new() };
        assert(result@ =~= Seq::<LexedView>::empty());
        result
    }

    /// Adds what the lexer gave for a text: its tokens, or `None` where one
    /// failed. The text is a token where it is exactly one.
    pub fn record(&mut self, text: String, tokens: Vec<Option<Token>>)
        ensures
            final(self)@ == old(self)@.push(
                LexedView { text: text@, token: only_token(lexer_view(tokens@)) },
            ),
    {
        let token = if tokens.len() == 1 {
            match &tokens[0] {
                Some(token) => Some(token.duplicate()),
                None => None,
            }
        } else {
            None
        };
        self.insert(text, token);
    }

    /// Adds an answer.
    pub fn insert(&mut self, text: String, token: Option<Token>)
        ensures
            final(self)@ == old(self)@.push(
                LexedView {
                    text: text@,
                    token: match token {
                        Some(token) => Some(token@),
                        None => None,
                    },
                },
            ),
    {
        let ghost before = self@;
        let entry = LexedEntry { text, token };
        self.entries.push(entry);
        assert(self@ =~= before.push(lexed_entry_view(entry)));
    }

    /// The answer about a text.
    fn get(&self, text: &str) -> (result: Option<Option<Token>>)
        ensures
            (match (lexed_as(self@, text@, 0), result) {
                (None, None) => true,
                (Some(None), Some(None)) => true,
                (Some(Some(expected)), Some(Some(token))) => token@ == expected,
                _ => false,
            }),
    {
        let mut index: usize = 0;
        while index < self.entries.len()
            invariant
                index <= self.entries@.len(),
                lexed_as(self@, text@, index as nat) == lexed_as(self@, text@, 0),
            decreases self.entries@.len() - index,
        {
            let entry = &self.entries[index];
            assert(self@[index as int] == lexed_entry_view(*entry));
            if same_text(entry.text.as_str(), text) {
                return match &entry.token {
                    Some(token) => Some(Some(token.duplicate())),
                    None => Some(None),
                };
            }
            index += 1;
        }
        None
    }
}

/// A token of an argument or a replacement list.
pub struct Piece {
    pub data: Token,
    pub origin: Vec<String>,
}

impl View for Piece {
    type V = PieceView;

    open spec fn view(&self) -> PieceView {
        PieceView { data: self.data@, origin: texts_view(self.origin@) }
    }
}

/// What a list of pieces is.
pub open spec fn pieces_view(pieces: Seq<Piece>) -> Seq<PieceView> {
    Seq::new(pieces.len(), |i: int| pieces[i]@)
}

/// What a list of arguments is.
pub open spec fn arguments_view(arguments: Seq<Vec<Piece>>) -> Seq<Seq<PieceView>> {
    Seq::new(arguments.len(), |i: int| pieces_view(arguments[i]@))
}

/// What follows the name of a function macro.
pub enum Opening {
    NotACall { items: Vec<Item> },
    Call { errors: Vec<Item>, space: Option<Item>, paren: Locatable },
}

/// An optional item, by its view.
pub open spec fn optional_view(item: Option<Item>) -> Option<ItemView> {
    match item {
        Some(item) => Some(item_view(item)),
        None => None,
    }
}

impl View for Opening {
    type V = OpeningView;

    open spec fn view(&self) -> OpeningView {
        match *self {
            Opening::NotACall { items } => OpeningView::NotACall { items: items_view(items@) },
            Opening::Call { errors, space, paren } => OpeningView::Call {
                errors: items_view(errors@),
                space: optional_view(space),
                paren: paren@,
            },
        }
    }
}

/// Adds an item to a list.
pub fn push_item(items: &mut Vec<Item>, item: Item)
    ensures
        items_view(final(items)@) == items_view(old(items)@).push(item_view(item)),
{
    items.push(item);
    assert(items_view(items@) =~= items_view(old(items)@).push(item_view(item)));
}

/// The streams that a list and an inner stream are.
pub open spec fn streams_of<I: Peekable>(incoming: Seq<Item>, inner: I) -> Streams {
    Streams { incoming: items_view(incoming), inner: inner.remaining() }
}

/// Takes the next item.
pub fn next_item<I: Peekable>(incoming: &mut Vec<Item>, inner: &mut I) -> (result: Option<Item>)
    ensures
        optional_view(result) == front(streams_of(old(incoming)@, *old(inner))),
        streams_of(final(incoming)@, *final(inner)) == advanced(
            streams_of(old(incoming)@, *old(inner)),
        ),
{
    if incoming.len() > 0 {
        let item = incoming.remove(0);
        assert(items_view(incoming@) =~= items_view(old(incoming)@).drop_first());
        Some(item)
    } else {
        inner.next()
    }
}

/// Whether the next item is a parenthesis that opens arguments.
pub fn next_opens<I: Peekable>(incoming: &Vec<Item>, inner: &mut I) -> (result: bool)
    ensures
        result == opens(front(streams_of(incoming@, *old(inner)))),
        final(inner).remaining() == old(inner).remaining(),
{
    if incoming.len() > 0 {
        matches!(&incoming[0], Ok(Locatable { data: Token::LeftParen, .. }))
    } else {
        matches!(inner.peek(), Some(Ok(Locatable { data: Token::LeftParen, .. })))
    }
}

/// Looks for the arguments after the name of a function macro.
pub fn open_call<I: Peekable>(name: Locatable, incoming: &mut Vec<Item>, inner: &mut I) -> (result:
    Opening)
    ensures
        (result@, streams_of(final(incoming)@, *final(inner))) == opening_spec(
            Ok(name@),
            streams_of(old(incoming)@, *old(inner)),
            Seq::empty(),
        ),
{
    let mut errors: Vec<Item> = Vec::new();
    assert(items_view(errors@) =~= Seq::empty());
    loop
        invariant
            opening_spec(
                Ok(name@),
                streams_of(incoming@, *inner),
                items_view(errors@),
            ) == opening_spec(
                Ok(name@),
                streams_of(old(incoming)@, *old(inner)),
                Seq::empty(),
            ),
        decreases left(streams_of(incoming@, *inner)),
    {
        match next_item(incoming, inner) {
            None => {
                push_item(&mut errors, Ok(name));
                return Opening::NotACall { items: errors };
            },
            Some(Err(failure)) => {
                push_item(&mut errors, Err(failure));
            },
            Some(Ok(token)) => {
                if matches!(token.data, Token::LeftParen) {
                    return Opening::Call { errors, space: None, paren: token };
                }
                if matches!(token.data, Token::Whitespace(_)) && next_opens(incoming, inner) {
                    if let Some(Ok(paren)) = next_item(incoming, inner) {
                        return Opening::Call { errors, space: Some(Ok(token)), paren };
                    }
                    return Opening::NotACall { items: errors };
                }
                push_item(&mut errors, Ok(name));
                push_item(&mut errors, Ok(token));
                return Opening::NotACall { items: errors };
            },
        }
    }
}

/// Drops the white space at the end of a list.
fn drop_end_spaces(pieces: &mut Vec<Piece>)
    ensures
        pieces_view(final(pieces)@) == without_end_spaces(pieces_view(old(pieces)@)),
{
    while pieces.len() > 0 && matches!(pieces[pieces.len() - 1].data, Token::Whitespace(_))
        invariant
            without_end_spaces(pieces_view(pieces@)) == without_end_spaces(
                pieces_view(old(pieces)@),
            ),
        decreases pieces@.len(),
    {
        let ghost before = pieces_view(pieces@);
        assert(before.last() == pieces@.last()@);
        let _ = pieces.pop();
        assert(pieces_view(pieces@) =~= before.drop_last());
    }
    assert(pieces@.len() > 0 ==> pieces_view(pieces@).last() == pieces@.last()@);
}

/// Drops the white space around an argument.
fn strip_whitespace(mut pieces: Vec<Piece>) -> (result: Vec<Piece>)
    ensures
        pieces_view(result@) == bare(pieces_view(pieces@)),
{
    drop_end_spaces(&mut pieces);
    let ghost trimmed = pieces_view(pieces@);
    while pieces.len() > 0 && matches!(pieces[0].data, Token::Whitespace(_))
        invariant
            without_start_spaces(pieces_view(pieces@)) == without_start_spaces(trimmed),
        decreases pieces@.len(),
    {
        let ghost before = pieces_view(pieces@);
        assert(before[0] == pieces@[0]@);
        let _ = pieces.remove(0);
        assert(pieces_view(pieces@) =~= before.drop_first());
    }
    assert(pieces@.len() > 0 ==> pieces_view(pieces@)[0] == pieces@[0]@);
    pieces
}

/// The arguments of a call, or the errors alone where the tokens end too
/// early.
pub struct Arguments {
    pub arguments: Option<Vec<Vec<Piece>>>,
    pub errors: Vec<Item>,
}

/// What reading arguments leads to.
pub open spec fn read_view<I: Peekable>(
    read: Arguments,
    incoming: Seq<Item>,
    inner: I,
) -> ArgumentsView {
    ArgumentsView {
        arguments: match read.arguments {
            Some(arguments) => Some(arguments_view(arguments@)),
            None => None,
        },
        errors: items_view(read.errors@),
        streams: streams_of(incoming, inner),
    }
}

/// Adds an argument to a list.
fn push_argument(arguments: &mut Vec<Vec<Piece>>, argument: Vec<Piece>)
    ensures
        arguments_view(final(arguments)@) == arguments_view(old(arguments)@).push(
            bare(pieces_view(argument@)),
        ),
{
    let argument = strip_whitespace(argument);
    arguments.push(argument);
    assert(arguments_view(arguments@) =~= arguments_view(old(arguments)@).push(
        pieces_view(argument@),
    ));
}

/// Adds a piece to a list.
fn push_piece(pieces: &mut Vec<Piece>, piece: Piece)
    ensures
        pieces_view(final(pieces)@) == pieces_view(old(pieces)@).push(piece@),
{
    pieces.push(piece);
    assert(pieces_view(pieces@) =~= pieces_view(old(pieces)@).push(piece@));
}

/// Reads the arguments of a call up to its closing parenthesis.
pub fn read_arguments<I: Peekable>(
    incoming: &mut Vec<Item>,
    inner: &mut I,
    errors: Vec<Item>,
) -> (result: Arguments)
    ensures
        read_view(result, final(incoming)@, *final(inner)) == arguments_spec(
            streams_of(old(incoming)@, *old(inner)),
            Seq::empty(),
            Seq::empty(),
            1,
            items_view(errors@),
        ),
{
    let ghost first = items_view(errors@);
    let mut failures = errors;
    let mut arguments: Vec<Vec<Piece>> = Vec::new();
    let mut current: Vec<Piece> = Vec::new();
    let mut nested: Vec<()> = Vec::new();
    assert(arguments_view(arguments@) =~= Seq::empty());
    assert(pieces_view(current@) =~= Seq::empty());
    loop
        invariant
            first == items_view(errors@),
            arguments_spec(
                streams_of(incoming@, *inner),
                arguments_view(arguments@),
                pieces_view(current@),
                (nested@.len() + 1) as nat,
                items_view(failures@),
            ) == arguments_spec(
                streams_of(old(incoming)@, *old(inner)),
                Seq::empty(),
                Seq::empty(),
                1,
                first,
            ),
        decreases left(streams_of(incoming@, *inner)),
    {
        match next_item(incoming, inner) {
            None => {
                return Arguments { arguments: None, errors: failures };
            },
            Some(Err(failure)) => {
                push_item(&mut failures, Err(failure));
            },
            Some(Ok(token)) => {
                if matches!(token.data, Token::Comma) && nested.len() == 0 {
                    push_argument(&mut arguments, current);
                    current = Vec::new();
                    assert(pieces_view(current@) =~= Seq::empty());
                } else if matches!(token.data, Token::RightParen) && nested.len() == 0 {
                    push_argument(&mut arguments, current);
                    return Arguments { arguments: Some(arguments), errors: failures };
                } else {
                    if matches!(token.data, Token::RightParen) {
                        let _ = nested.pop();
                    } else if matches!(token.data, Token::LeftParen) {
                        nested.push(());
                    }
                    push_piece(&mut current, Piece { data: token.data, origin: token.origin });
                }
            },
        }
    }
}

/// A copy of a list of pieces, added to another.
fn append_pieces(pieces: &mut Vec<Piece>, more: &Vec<Piece>, from: usize)
    requires
        from <= more@.len(),
    ensures
        pieces_view(final(pieces)@) == pieces_view(old(pieces)@) + pieces_view(more@).skip(
            from as int,
        ),
{
    let ghost before = pieces_view(pieces@);
    let ghost added = pieces_view(more@);
    let mut index: usize = from;
    assert(before + added.subrange(from as int, from as int) =~= before);
    while index < more.len()
        invariant
            from <= index <= more@.len(),
            added == pieces_view(more@),
            pieces_view(pieces@) == before + added.subrange(from as int, index as int),
        decreases more@.len() - index,
    {
        let piece = Piece {
            data: more[index].data.duplicate(),
            origin: copy_names(&more[index].origin),
        };
        push_piece(pieces, piece);
        assert(piece@ == added[index as int]);
        index += 1;
        assert(pieces_view(pieces@) =~= before + added.subrange(from as int, index as int));
    }
    assert(added.subrange(from as int, index as int) =~= added.skip(from as int));
}

/// A call of a function macro.
pub struct Call<'a> {
    pub name: String,
    pub params: &'a Vec<String>,
    pub body: &'a Vec<Token>,
    pub arguments: Vec<Vec<Piece>>,
    /// The origin of what the body adds.
    pub origin: Vec<String>,
}

impl View for Call<'_> {
    type V = CallView;

    open spec fn view(&self) -> CallView {
        CallView {
            name: self.name@,
            params: texts_view(self.params@),
            body: tokens_view(self.body@),
            arguments: arguments_view(self.arguments@),
            origin: texts_view(self.origin@),
        }
    }
}

/// The text of a body in diagnostics.
fn body_text(body: &Vec<Token>) -> (result: String)
    ensures
        result@ == joined(body_texts(tokens_view(body@)), 0),
{
    let ghost texts = body_texts(tokens_view(body@));
    let mut text = String::new();
    assert(text@ + joined(texts, 0) =~= joined(texts, 0));
    let mut index: usize = 0;
    while index < body.len()
        invariant
            index <= body@.len(),
            texts == body_texts(tokens_view(body@)),
            text@ + joined(texts, index as nat) == joined(texts, 0),
        decreases body@.len() - index,
    {
        let ghost before = text@;
        if index != 0 {
            text.append(" ");
        }
        text.append(body[index].to_string().as_str());
        assert(text@ + joined(texts, index as nat + 1) =~= before + joined(texts, index as nat));
        index += 1;
    }
    assert(text@ + joined(texts, index as nat) =~= text@);
    text
}

/// The string literal that spells an argument.
pub fn stringify(argument: &Vec<Piece>) -> (result: Result<Token, CppError>)
    ensures
        (match (stringified(pieces_view(argument@)), result) {
            (Ok(expected), Ok(token)) => token@ == expected,
            (Err(expected), Err(error)) => error@ == expected,
            _ => false,
        }),
{
    let ghost pieces = pieces_view(argument@);
    let mut text = String::new();
    assert(text@ + quoted_from(pieces, 0) =~= quoted_from(pieces, 0));
    let mut index: usize = 0;
    while index < argument.len()
        invariant
            index <= argument@.len(),
            pieces == pieces_view(argument@),
            text@ + quoted_from(pieces, index as nat) == quoted_from(pieces, 0),
        decreases argument@.len() - index,
    {
        let ghost before = text@;
        text.append(argument[index].data.to_quoted().as_str());
        assert(text@ + quoted_from(pieces, index as nat + 1) =~= before + quoted_from(
            pieces,
            index as nat,
        ));
        index += 1;
    }
    assert(text@ + quoted_from(pieces, index as nat) =~= text@);
    let quoted = concat3("\"", trim(text.as_str()), "\"");
    if quoted.as_str().as_bytes().len() as u64 > 0xffff_ffff {
        return Err(CppError::TextTooLong);
    }
    let mut parts: Vec<arcstr::Substr> = Vec::new();
    parts.push(substr_full(quoted.as_str()));
    assert(substr_texts(parts@) =~= seq![string_text(pieces)]);
    Ok(Token::Literal(LiteralToken::Str(parts)))
}

/// How a token that can be pasted is spelled.
fn spell(token: &Token) -> (result: Option<String>)
    ensures
        (match (spelling(token@), result) {
            (Some(expected), Some(text)) => text@ == expected,
            (None, None) => true,
            _ => false,
        }),
{
    match token {
        Token::Id(_) | Token::Keyword(_) | Token::Literal(_) => Some(token.to_string()),
        _ => None,
    }
}

/// What `##` makes of two tokens.
pub fn paste_identifier_tokens(left: &Token, right: &Token, lexed: &Lexed) -> (result: Result<
    Option<Token>,
    CppError,
>)
    ensures
        (match (pasted(lexed@, left@, right@), result) {
            (Ok(Some(expected)), Ok(Some(token))) => token@ == expected,
            (Ok(None), Ok(None)) => true,
            (Err(expected), Err(error)) => error@ == expected,
            _ => false,
        }),
{
    match (spell(left), spell(right)) {
        (Some(first), Some(second)) => {
            let text = concat2(first.as_str(), second.as_str());
            match lexed.get(text.as_str()) {
                Some(token) => Ok(token),
                None => Err(CppError::UnknownPaste(text)),
            }
        },
        _ => Ok(None),
    }
}

/// A list of pieces or an error, by its view.
pub open spec fn pieces_outcome(result: Result<Vec<Piece>, CppError>) -> Result<
    Seq<PieceView>,
    CppErrorView,
> {
    match result {
        Ok(pieces) => Ok(pieces_view(pieces@)),
        Err(error) => Err(error@),
    }
}

impl Call<'_> {
    /// The error of a hash that has no operand.
    fn missing_operand(&self) -> (result: CppError)
        ensures
            result@ == hash_error(self@),
    {
        CppError::HashMissingParameterContext {
            macro_name: self.name.clone(),
            body: body_text(self.body),
        }
    }

    /// The argument that a token of the body stands for.
    fn argument(&self, token: &Token) -> (result: Option<&Vec<Piece>>)
        ensures
            (match (argument_of(self@, token@), result) {
                (Some(expected), Some(argument)) => pieces_view(argument@) == expected,
                (None, None) => true,
                _ => false,
            }),
    {
        if let Token::Id(name) = token {
            let ghost params = texts_view(self.params@);
            let mut index: usize = 0;
            while index < self.params.len()
                invariant
                    index <= self.params@.len(),
                    params == texts_view(self.params@),
                    token@ == TokenView::Id(name@),
                    parameter_position(params, name@, index as nat) == parameter_position(
                        params,
                        name@,
                        0,
                    ),
                decreases self.params@.len() - index,
            {
                assert(params[index as int] == self.params@[index as int]@);
                if self.params[index] == *name {
                    if index < self.arguments.len() {
                        assert(self@.arguments[index as int] == pieces_view(
                            self.arguments@[index as int]@,
                        ));
                        return Some(&self.arguments[index]);
                    }
                    return None;
                }
                index += 1;
            }
        }
        None
    }

    /// What a token of the body is replaced with.
    fn operand(&self, token: &Token) -> (result: Vec<Piece>)
        ensures
            pieces_view(result@) == operand(self@, token@),
    {
        let mut pieces: Vec<Piece> = Vec::new();
        assert(pieces_view(pieces@) =~= Seq::empty());
        match self.argument(token) {
            Some(argument) => {
                append_pieces(&mut pieces, argument, 0);
                assert(Seq::<PieceView>::empty() + pieces_view(argument@).skip(0)
                    =~= pieces_view(argument@));
            },
            None => {
                let piece = Piece { data: token.duplicate(), origin: copy_names(&self.origin) };
                push_piece(&mut pieces, piece);
                assert(pieces_view(pieces@) =~= seq![piece@]);
            },
        }
        pieces
    }

    /// The first position from `from` on that is not white space.
    fn skip_spaces(&self, from: usize) -> (result: usize)
        requires
            from <= self.body@.len(),
        ensures
            result == past_spaces(self@.body, from as nat),
            from <= result <= self.body@.len(),
    {
        let mut position: usize = from;
        while position < self.body.len() && matches!(self.body[position], Token::Whitespace(_))
            invariant
                from <= position <= self.body@.len(),
                past_spaces(self@.body, position as nat) == past_spaces(
                    self@.body,
                    from as nat,
                ),
            decreases self.body@.len() - position,
        {
            assert(self@.body[position as int] == self.body@[position as int]@);
            position += 1;
        }
        assert(position < self.body@.len() ==> self@.body[position as int]
            == self.body@[position as int]@);
        position
    }

    /// Whether a hash stands at a position of the body.
    fn is_hash(&self, position: usize) -> (result: bool)
        ensures
            result == hash_at(self@.body, position as nat),
    {
        if position >= self.body.len() {
            return false;
        }
        assert(self@.body[position as int] == self.body@[position as int]@);
        matches!(self.body[position], Token::Hash)
    }

    /// Pastes the last piece to the first piece of `right`.
    fn paste_onto(&self, lexed: &Lexed, out: Vec<Piece>, right: &Vec<Piece>) -> (result: Result<
        Vec<Piece>,
        CppError,
    >)
        ensures
            pieces_outcome(result) == pasted_onto(
                self@,
                lexed@,
                pieces_view(out@),
                pieces_view(right@),
            ),
    {
        let ghost before = pieces_view(out@);
        let mut out = out;
        if right.len() == 0 {
            return Ok(out);
        }
        if out.len() == 0 {
            return Err(self.missing_operand());
        }
        assert(before.last() == out@.last()@);
        assert(pieces_view(right@)[0] == right@[0]@);
        let token = paste_identifier_tokens(&out[out.len() - 1].data, &right[0].data, lexed)?;
        match token {
            None => Err(self.missing_operand()),
            Some(token) => {
                let _ = out.pop();
                assert(pieces_view(out@) =~= before.drop_last());
                push_piece(&mut out, Piece { data: token, origin: copy_names(&self.origin) });
                append_pieces(&mut out, right, 1);
                assert(pieces_view(right@).skip(1) =~= pieces_view(right@).drop_first());
                Ok(out)
            },
        }
    }

    /// The replacement list of the call.
    pub fn substitute(&self, lexed: &Lexed) -> (result: Result<Vec<Piece>, CppError>)
        ensures
            pieces_outcome(result) == substituted(self@, lexed@, 0, Seq::empty()),
    {
        let mut out: Vec<Piece> = Vec::new();
        assert(pieces_view(out@) =~= Seq::empty());
        let mut index: usize = 0;
        while index < self.body.len()
            invariant
                index <= self.body@.len(),
                substituted(self@, lexed@, index as nat, pieces_view(out@)) == substituted(
                    self@,
                    lexed@,
                    0,
                    Seq::empty(),
                ),
            decreases self.body@.len() - index,
        {
            assert(self@.body[index as int] == self.body@[index as int]@);
            let next: usize = self.skip_spaces(index + 1);
            let after: usize = if next < self.body.len() {
                self.skip_spaces(next + 1)
            } else {
                next
            };
            if matches!(self.body[index], Token::Hash) {
                if next >= self.body.len() {
                    return Err(self.missing_operand());
                }
                assert(self@.body[next as int] == self.body@[next as int]@);
                if self.is_hash(next) {
                    if after >= self.body.len() {
                        return Err(self.missing_operand());
                    }
                    assert(self@.body[after as int] == self.body@[after as int]@);
                    drop_end_spaces(&mut out);
                    let right = self.operand(&self.body[after]);
                    out = self.paste_onto(lexed, out, &right)?;
                    // A pasted token can itself be the left operand of
                    // another `##`: go on at that hash.
                    let following: usize = self.skip_spaces(after + 1);
                    if right.len() > 0 && self.is_hash(following) {
                        index = following;
                    } else {
                        index = after + 1;
                    }
                } else {
                    match self.argument(&self.body[next]) {
                        None => {
                            return Err(self.missing_operand());
                        },
                        Some(argument) => {
                            let token = stringify(argument)?;
                            push_piece(
                                &mut out,
                                Piece { data: token, origin: copy_names(&self.origin) },
                            );
                            index = next + 1;
                        },
                    }
                }
            } else if matches!(self.body[index], Token::Id(_)) && self.is_hash(next)
                && self.is_hash(after) && next < self.body.len() {
                let left = self.operand(&self.body[index]);
                append_pieces(&mut out, &left, 0);
                assert(pieces_view(left@).skip(0) =~= pieces_view(left@));
                drop_end_spaces(&mut out);
                index = next;
            } else if matches!(self.body[index], Token::Whitespace(_)) {
                push_piece(
                    &mut out,
                    Piece {
                        data: Token::Whitespace(" ".to_owned()),
                        origin: copy_names(&self.origin),
                    },
                );
                index += 1;
            } else {
                let pieces = self.operand(&self.body[index]);
                append_pieces(&mut out, &pieces, 0);
                assert(pieces_view(pieces@).skip(0) =~= pieces_view(pieces@));
                index += 1;
            }
        }
        Ok(out)
    }
}

} // verus!
