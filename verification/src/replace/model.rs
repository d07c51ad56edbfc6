//! What macro replacement makes of tokens.

use crate::error::Location;
use crate::replace::definition::{definition_of, DefinitionView, EntryView};
use crate::replace::stream::{CppErrorView, FailureView, ItemView, LocatableView};
use crate::replace::token::{joined, quoted_text, token_text, trimmed, TokenView};
use vstd::prelude::*;
use vstd::utf8::encode_utf8;

verus! {

/// What the lexer makes of a text: one token, or `None` for anything else.
pub struct LexedView {
    pub text: Seq<char>,
    pub token: Option<TokenView>,
}

/// What replacement knows: the macros, and what the lexer makes of pasted
/// texts.
pub struct Knowledge {
    pub definitions: Seq<EntryView>,
    pub lexed: Seq<LexedView>,
}

/// A token of an argument or a replacement list, with its origin.
pub struct PieceView {
    pub data: TokenView,
    pub origin: Seq<Seq<char>>,
}

/// Whether a token is white space.
pub open spec fn is_space(token: TokenView) -> bool {
    token is Whitespace
}

/// A token of a replacement list placed at `location`.
pub open spec fn located(data: TokenView, location: Location, origin: Seq<Seq<char>>) -> ItemView {
    Ok(LocatableView { data, location, origin })
}

/// The tokens of a replacement list placed at `location`.
pub open spec fn list_at(
    tokens: Seq<TokenView>,
    location: Location,
    origin: Seq<Seq<char>>,
) -> Seq<ItemView> {
    Seq::new(tokens.len(), |i: int| located(tokens[i], location, origin))
}

/// The pieces placed at `location`.
pub open spec fn pieces_at(pieces: Seq<PieceView>, location: Location) -> Seq<ItemView> {
    Seq::new(pieces.len(), |i: int| located(pieces[i].data, location, pieces[i].origin))
}

/// The number of definitions from `from` on whose names are not in `seen`.
pub open spec fn unseen(
    definitions: Seq<EntryView>,
    seen: Seq<Seq<char>>,
    from: nat,
) -> nat
    decreases definitions.len() - from,
{
    if from >= definitions.len() {
        0
    } else {
        (if seen.contains(definitions[from as int].name) {
            0nat
        } else {
            1nat
        }) + unseen(definitions, seen, from + 1)
    }
}

/// Seeing one more name leaves no more unseen.
pub proof fn seeing_does_not_add(
    definitions: Seq<EntryView>,
    seen: Seq<Seq<char>>,
    name: Seq<char>,
    from: nat,
)
    ensures
        unseen(definitions, seen.push(name), from) <= unseen(definitions, seen, from),
    decreases definitions.len() - from,
{
    if from < definitions.len() {
        seeing_does_not_add(definitions, seen, name, from + 1);
        let entry = definitions[from as int];
        if seen.contains(entry.name) {
            let k = choose|k: int| 0 <= k < seen.len() && seen[k] == entry.name;
            assert(seen.push(name)[k] == entry.name);
        }
    }
}

/// Seeing a defined name for the first time leaves fewer unseen.
pub proof fn seeing_takes_away(
    definitions: Seq<EntryView>,
    seen: Seq<Seq<char>>,
    name: Seq<char>,
    from: nat,
)
    requires
        definition_of(definitions, name, from) is Some,
        !seen.contains(name),
    ensures
        unseen(definitions, seen.push(name), from) < unseen(definitions, seen, from),
    decreases definitions.len() - from,
{
    let entry = definitions[from as int];
    seeing_does_not_add(definitions, seen, name, from + 1);
    if entry.name == name {
        assert(seen.push(name)[seen.len() as int] == name);
    } else {
        seeing_takes_away(definitions, seen, name, from + 1);
        if seen.contains(entry.name) {
            let k = choose|k: int| 0 <= k < seen.len() && seen[k] == entry.name;
            assert(seen.push(name)[k] == entry.name);
        }
    }
}

/// The definition by which an item is replaced: none for an item that is no
/// name, for a name that was replaced before, and for a name that came out of
/// its own replacement.
pub open spec fn replacement_of(
    knowledge: Knowledge,
    seen: Seq<Seq<char>>,
    item: ItemView,
) -> Option<DefinitionView> {
    match item {
        Ok(token) => match token.data {
            TokenView::Id(name) => if seen.contains(name) || token.origin.contains(name) {
                None
            } else {
                definition_of(knowledge.definitions, name, 0)
            },
            _ => None,
        },
        Err(_) => None,
    }
}

/// The name of an item that is one.
pub open spec fn name_of(item: ItemView) -> Seq<char> {
    match item {
        Ok(token) => match token.data {
            TokenView::Id(name) => name,
            _ => Seq::empty(),
        },
        Err(_) => Seq::empty(),
    }
}

/// The origin of an item.
pub open spec fn origin_of(item: ItemView) -> Seq<Seq<char>> {
    match item {
        Ok(token) => token.origin,
        Err(_) => Seq::empty(),
    }
}

/// Two streams read one after the other.
pub struct Streams {
    pub incoming: Seq<ItemView>,
    pub inner: Seq<ItemView>,
}

/// How many items are still to come.
pub open spec fn left(streams: Streams) -> nat {
    streams.incoming.len() + streams.inner.len()
}

/// The next item.
pub open spec fn front(streams: Streams) -> Option<ItemView> {
    if streams.incoming.len() > 0 {
        Some(streams.incoming[0])
    } else if streams.inner.len() > 0 {
        Some(streams.inner[0])
    } else {
        None
    }
}

/// The streams after the next item.
pub open spec fn advanced(streams: Streams) -> Streams {
    if streams.incoming.len() > 0 {
        Streams { incoming: streams.incoming.drop_first(), ..streams }
    } else if streams.inner.len() > 0 {
        Streams { inner: streams.inner.drop_first(), ..streams }
    } else {
        streams
    }
}

/// What follows the name of a function macro.
pub enum OpeningView {
    /// Something else than arguments: the items up to there, name and all.
    NotACall { items: Seq<ItemView> },
    /// A parenthesis: the errors on the way to it, the space before it, and
    /// the parenthesis itself.
    Call { errors: Seq<ItemView>, space: Option<ItemView>, paren: LocatableView },
}

/// Whether the item is a parenthesis that opens arguments.
pub open spec fn opens(item: Option<ItemView>) -> bool {
    item matches Some(Ok(token)) && token.data is LeftParen
}

/// What follows the name of a function macro, after the errors so far. One
/// space may stand before the arguments.
pub open spec fn opening_spec(
    name: ItemView,
    streams: Streams,
    errors: Seq<ItemView>,
) -> (OpeningView, Streams)
    decreases left(streams),
{
    match front(streams) {
        None => (OpeningView::NotACall { items: errors.push(name) }, streams),
        Some(Err(failure)) => opening_spec(
            name,
            advanced(streams),
            errors.push(Err(failure)),
        ),
        Some(Ok(token)) => if token.data is LeftParen {
            (OpeningView::Call { errors, space: None, paren: token }, advanced(streams))
        } else if is_space(token.data) && opens(front(advanced(streams))) {
            (
                OpeningView::Call {
                    errors,
                    space: Some(Ok(token)),
                    paren: front(advanced(streams))->0->Ok_0,
                },
                advanced(advanced(streams)),
            )
        } else {
            (
                OpeningView::NotACall { items: errors.push(name).push(Ok(token)) },
                advanced(streams),
            )
        },
    }
}

/// The pieces without the white space at their end.
pub open spec fn without_end_spaces(pieces: Seq<PieceView>) -> Seq<PieceView>
    decreases pieces.len(),
{
    if pieces.len() > 0 && is_space(pieces.last().data) {
        without_end_spaces(pieces.drop_last())
    } else {
        pieces
    }
}

/// The pieces without the white space at their start.
pub open spec fn without_start_spaces(pieces: Seq<PieceView>) -> Seq<PieceView>
    decreases pieces.len(),
{
    if pieces.len() > 0 && is_space(pieces[0].data) {
        without_start_spaces(pieces.drop_first())
    } else {
        pieces
    }
}

/// An argument without the white space around it.
pub open spec fn bare(pieces: Seq<PieceView>) -> Seq<PieceView> {
    without_start_spaces(without_end_spaces(pieces))
}

/// The arguments of a call: `None` where the tokens end before the closing
/// parenthesis.
pub struct ArgumentsView {
    pub arguments: Option<Seq<Seq<PieceView>>>,
    pub errors: Seq<ItemView>,
    pub streams: Streams,
}

/// The rest of the arguments, after those in `found` and the part of one in
/// `current`. `depth` parentheses are open.
pub open spec fn arguments_spec(
    streams: Streams,
    found: Seq<Seq<PieceView>>,
    current: Seq<PieceView>,
    depth: nat,
    errors: Seq<ItemView>,
) -> ArgumentsView
    decreases left(streams),
{
    match front(streams) {
        None => ArgumentsView { arguments: None, errors, streams },
        Some(Err(failure)) => arguments_spec(
            advanced(streams),
            found,
            current,
            depth,
            errors.push(Err(failure)),
        ),
        Some(Ok(token)) => {
            let piece = PieceView { data: token.data, origin: token.origin };
            if token.data is Comma && depth == 1 {
                arguments_spec(
                    advanced(streams),
                    found.push(bare(current)),
                    Seq::empty(),
                    depth,
                    errors,
                )
            } else if token.data is RightParen && depth <= 1 {
                ArgumentsView {
                    arguments: Some(found.push(bare(current))),
                    errors,
                    streams: advanced(streams),
                }
            } else {
                arguments_spec(
                    advanced(streams),
                    found,
                    current.push(piece),
                    if token.data is RightParen {
                        (depth - 1) as nat
                    } else if token.data is LeftParen {
                        depth + 1
                    } else {
                        depth
                    },
                    errors,
                )
            }
        },
    }
}

/// The position of a parameter from `from` on.
pub open spec fn parameter_position(
    params: Seq<Seq<char>>,
    name: Seq<char>,
    from: nat,
) -> Option<nat>
    decreases params.len() - from,
{
    if from >= params.len() {
        None
    } else if params[from as int] == name {
        Some(from)
    } else {
        parameter_position(params, name, from + 1)
    }
}

/// A call of a function macro.
pub struct CallView {
    pub name: Seq<char>,
    pub params: Seq<Seq<char>>,
    pub body: Seq<TokenView>,
    pub arguments: Seq<Seq<PieceView>>,
    /// The origin of what the body adds.
    pub origin: Seq<Seq<char>>,
}

/// The argument that a token of the body stands for.
pub open spec fn argument_of(call: CallView, token: TokenView) -> Option<Seq<PieceView>> {
    match token {
        TokenView::Id(name) => match parameter_position(call.params, name, 0) {
            Some(position) => if position < call.arguments.len() {
                Some(call.arguments[position as int])
            } else {
                None
            },
            None => None,
        },
        _ => None,
    }
}

/// What a token of the body is replaced with: the argument of a parameter,
/// else the token itself.
pub open spec fn operand(call: CallView, token: TokenView) -> Seq<PieceView> {
    match argument_of(call, token) {
        Some(argument) => argument,
        None => seq![PieceView { data: token, origin: call.origin }],
    }
}

/// The first position from `from` on that is not white space.
pub open spec fn past_spaces(body: Seq<TokenView>, from: nat) -> nat
    decreases body.len() - from,
{
    if from < body.len() && is_space(body[from as int]) {
        past_spaces(body, from + 1)
    } else {
        from
    }
}

/// Skipping white space does not go back, and stays in the body.
pub proof fn past_spaces_is_ahead(body: Seq<TokenView>, from: nat)
    ensures
        past_spaces(body, from) >= from,
        from <= body.len() ==> past_spaces(body, from) <= body.len(),
    decreases body.len() - from,
{
    if from < body.len() && is_space(body[from as int]) {
        past_spaces_is_ahead(body, from + 1);
    }
}

/// Whether a hash stands at a position of the body.
pub open spec fn hash_at(body: Seq<TokenView>, position: nat) -> bool {
    position < body.len() && body[position as int] is Hash
}

/// The texts of the tokens of a body.
pub open spec fn body_texts(body: Seq<TokenView>) -> Seq<Seq<char>> {
    Seq::new(body.len(), |i: int| token_text(body[i]))
}

/// The error of a hash that has no operand.
pub open spec fn hash_error(call: CallView) -> CppErrorView {
    CppErrorView::HashMissingParameterContext {
        macro_name: call.name,
        body: joined(body_texts(call.body), 0),
    }
}

/// The texts of the pieces from `from` on, as they are quoted.
pub open spec fn quoted_from(pieces: Seq<PieceView>, from: nat) -> Seq<char>
    decreases pieces.len() - from,
{
    if from >= pieces.len() {
        Seq::empty()
    } else {
        quoted_text(pieces[from as int].data) + quoted_from(pieces, from + 1)
    }
}

/// The text of a string literal that spells an argument.
pub open spec fn string_text(argument: Seq<PieceView>) -> Seq<char> {
    "\""@ + trimmed(quoted_from(argument, 0)) + "\""@
}

/// The string literal that spells an argument.
pub open spec fn stringified(argument: Seq<PieceView>) -> Result<TokenView, CppErrorView> {
    let text = string_text(argument);
    if encode_utf8(text).len() > u32::MAX {
        Err(CppErrorView::TextTooLong)
    } else {
        Ok(TokenView::Str(seq![text]))
    }
}

/// How a token that can be pasted is spelled.
pub open spec fn spelling(token: TokenView) -> Option<Seq<char>> {
    match token {
        TokenView::Id(_) => Some(token_text(token)),
        TokenView::Keyword(_) => Some(token_text(token)),
        TokenView::Int(_) => Some(token_text(token)),
        TokenView::Float(_) => Some(token_text(token)),
        TokenView::Str(_) => Some(token_text(token)),
        TokenView::Char(_) => Some(token_text(token)),
        _ => None,
    }
}

/// What the lexer makes of a text, if that is known: the first entry from
/// `from` on.
pub open spec fn lexed_as(lexed: Seq<LexedView>, text: Seq<char>, from: nat) -> Option<
    Option<TokenView>,
>
    decreases lexed.len() - from,
{
    if from >= lexed.len() {
        None
    } else if lexed[from as int].text == text {
        Some(lexed[from as int].token)
    } else {
        lexed_as(lexed, text, from + 1)
    }
}

/// The token that a text is, given what the lexer gave for it: the only one,
/// unless it failed.
pub open spec fn only_token(tokens: Seq<Option<TokenView>>) -> Option<TokenView> {
    if tokens.len() == 1 {
        tokens[0]
    } else {
        None
    }
}

/// What `##` makes of two tokens: the one token that their spellings are
/// together, if there is one.
pub open spec fn pasted(
    lexed: Seq<LexedView>,
    left: TokenView,
    right: TokenView,
) -> Result<Option<TokenView>, CppErrorView> {
    match (spelling(left), spelling(right)) {
        (Some(first), Some(second)) => match lexed_as(lexed, first + second, 0) {
            Some(token) => Ok(token),
            None => Err(CppErrorView::UnknownPaste(first + second)),
        },
        _ => Ok(None),
    }
}

/// The pieces with the last one pasted to the first piece of `right`.
pub open spec fn pasted_onto(
    call: CallView,
    lexed: Seq<LexedView>,
    out: Seq<PieceView>,
    right: Seq<PieceView>,
) -> Result<Seq<PieceView>, CppErrorView> {
    if right.len() == 0 {
        Ok(out)
    } else if out.len() == 0 {
        Err(hash_error(call))
    } else {
        match pasted(lexed, out.last().data, right[0].data) {
            Err(error) => Err(error),
            Ok(None) => Err(hash_error(call)),
            Ok(Some(token)) => Ok(
                out.drop_last().push(PieceView { data: token, origin: call.origin })
                    + right.drop_first(),
            ),
        }
    }
}

/// The replacement list of a call from `index` on, after the pieces in `out`:
/// parameters are replaced with their arguments, `#` spells an argument as a
/// string, and `##` pastes two tokens together.
pub open spec fn substituted(
    call: CallView,
    lexed: Seq<LexedView>,
    index: nat,
    out: Seq<PieceView>,
) -> Result<Seq<PieceView>, CppErrorView>
    decreases call.body.len() - index,
{
    let body = call.body;
    let next = past_spaces(body, index + 1);
    let after = past_spaces(body, next + 1);
    proof {
        past_spaces_is_ahead(body, index + 1);
        past_spaces_is_ahead(body, next + 1);
        past_spaces_is_ahead(body, after + 1);
    }
    if index >= body.len() {
        Ok(out)
    } else if body[index as int] is Hash {
        if hash_at(body, next) {
            if after >= body.len() {
                Err(hash_error(call))
            } else {
                let right = operand(call, body[after as int]);
                match pasted_onto(call, lexed, without_end_spaces(out), right) {
                    Err(error) => Err(error),
                    Ok(out) => {
                        let following = past_spaces(body, after + 1);
                        substituted(
                            call,
                            lexed,
                            if right.len() > 0 && hash_at(body, following) {
                                following
                            } else {
                                after + 1
                            },
                            out,
                        )
                    },
                }
            }
        } else if next >= body.len() {
            Err(hash_error(call))
        } else {
            match argument_of(call, body[next as int]) {
                None => Err(hash_error(call)),
                Some(argument) => match stringified(argument) {
                    Err(error) => Err(error),
                    Ok(token) => substituted(
                        call,
                        lexed,
                        next + 1,
                        out.push(PieceView { data: token, origin: call.origin }),
                    ),
                },
            }
        }
    } else if body[index as int] is Id && hash_at(body, next) && hash_at(body, after) {
        substituted(
            call,
            lexed,
            next,
            without_end_spaces(out + operand(call, body[index as int])),
        )
    } else if is_space(body[index as int]) {
        substituted(
            call,
            lexed,
            index + 1,
            out.push(PieceView { data: TokenView::Whitespace(" "@), origin: call.origin }),
        )
    } else {
        substituted(call, lexed, index + 1, out + operand(call, body[index as int]))
    }
}

/// Whether a call has as many arguments as the macro has parameters. A macro
/// without parameters is called with one empty argument.
pub open spec fn arguments_match(params: Seq<Seq<char>>, arguments: Seq<Seq<PieceView>>) -> bool {
    arguments.len() == params.len() || (arguments.len() == 1 && params.len() == 0
        && arguments[0].len() == 0)
}

/// The items of a call that is not replaced.
pub open spec fn kept_call(
    errors: Seq<ItemView>,
    name: ItemView,
    space: Option<ItemView>,
    paren: LocatableView,
) -> Seq<ItemView> {
    let items = errors.push(name);
    let items = match space {
        Some(space) => items.push(space),
        None => items,
    };
    items.push(Ok(paren))
}

/// What replacement leads to: the items, and what is left of the streams.
pub struct ReplacedView {
    pub items: Seq<ItemView>,
    pub streams: Streams,
}

/// A function macro replaced, given its name and what follows it. A call
/// whose parenthesis came out of the macro itself is a cycle and stays as it
/// is. `nesting` calls may still be replaced inside one another.
pub open spec fn function_spec(
    knowledge: Knowledge,
    name: ItemView,
    params: Seq<Seq<char>>,
    body: Seq<TokenView>,
    location: Location,
    streams: Streams,
    nesting: nat,
) -> ReplacedView
    decreases nesting, 0nat, 0nat, 0nat,
{
    let (opening, streams) = opening_spec(name, streams, Seq::empty());
    match opening {
        OpeningView::NotACall { items } => ReplacedView { items, streams },
        OpeningView::Call { errors, space, paren } => if paren.origin.contains(name_of(name))
            || nesting == 0 {
            ReplacedView { items: kept_call(errors, name, space, paren), streams }
        } else {
            let read = arguments_spec(streams, Seq::empty(), Seq::empty(), 1, errors);
            match read.arguments {
                None => ReplacedView { items: read.errors, streams: read.streams },
                Some(arguments) => ReplacedView {
                    items: call_spec(
                        knowledge,
                        CallView {
                            name: name_of(name),
                            params,
                            body,
                            arguments,
                            origin: (origin_of(name) + paren.origin).push(name_of(name)),
                        },
                        location,
                        read.errors,
                        (nesting - 1) as nat,
                    ),
                    streams: read.streams,
                },
            }
        },
    }
}

/// What a call with its arguments is replaced with: its replacement list,
/// scanned for more macros.
pub open spec fn call_spec(
    knowledge: Knowledge,
    call: CallView,
    location: Location,
    errors: Seq<ItemView>,
    nesting: nat,
) -> Seq<ItemView>
    decreases nesting, 3nat, 0nat, 0nat,
{
    if !arguments_match(call.params, call.arguments) {
        seq![
            Err(
                FailureView {
                    location,
                    error: CppErrorView::TooFewArguments(
                        call.params.len() as usize,
                        call.arguments.len() as usize,
                    ),
                },
            ),
        ]
    } else {
        match substituted(call, knowledge.lexed, 0, Seq::empty()) {
            Err(error) => seq![Err(FailureView { location, error })],
            Ok(pieces) => errors + rescanned(
                knowledge,
                pieces_at(pieces, location),
                Seq::empty(),
                nesting,
            ),
        }
    }
}

/// The items of a replacement list scanned for more macros, after those in
/// `out`.
pub open spec fn rescanned(
    knowledge: Knowledge,
    items: Seq<ItemView>,
    out: Seq<ItemView>,
    nesting: nat,
) -> Seq<ItemView>
    decreases nesting, 2nat, items.len(), 0nat,
{
    if items.len() == 0 {
        out
    } else {
        match items[0] {
            Err(failure) => rescanned(
                knowledge,
                items.drop_first(),
                out.push(Err(failure)),
                nesting,
            ),
            Ok(token) => {
                let replaced = replaced_spec(
                    knowledge,
                    Streams { incoming: seq![Ok(token)], inner: items.drop_first() },
                    Seq::empty(),
                    Seq::empty(),
                    token.location,
                    nesting,
                );
                if replaced.streams.inner.len() < items.len() {
                    rescanned(
                        knowledge,
                        replaced.streams.inner,
                        out + replaced.items,
                        nesting,
                    )
                } else {
                    out + replaced.items
                }
            },
        }
    }
}

/// The pending items replaced, after those in `out`. Each macro is replaced
/// once: `seen` are those that were.
pub open spec fn replaced_spec(
    knowledge: Knowledge,
    streams: Streams,
    seen: Seq<Seq<char>>,
    out: Seq<ItemView>,
    location: Location,
    nesting: nat,
) -> ReplacedView
    decreases nesting, 1nat, unseen(knowledge.definitions, seen, 0), streams.incoming.len(),
{
    if streams.incoming.len() == 0 {
        ReplacedView { items: out, streams }
    } else {
        let item = streams.incoming[0];
        let rest = Streams { incoming: streams.incoming.drop_first(), ..streams };
        let name = name_of(item);
        proof {
            if replacement_of(knowledge, seen, item) is Some {
                seeing_takes_away(knowledge.definitions, seen, name, 0);
            }
        }
        match replacement_of(knowledge, seen, item) {
            None => replaced_spec(knowledge, rest, seen, out.push(item), location, nesting),
            Some(DefinitionView::Object(body)) => replaced_spec(
                knowledge,
                Streams {
                    incoming: list_at(body, location, origin_of(item).push(name))
                        + rest.incoming,
                    ..rest
                },
                seen.push(name),
                out,
                location,
                nesting,
            ),
            Some(DefinitionView::Function { params, body }) => {
                let replaced = function_spec(
                    knowledge,
                    located(TokenView::Id(name), location, origin_of(item)),
                    params,
                    body,
                    location,
                    rest,
                    nesting,
                );
                replaced_spec(
                    knowledge,
                    Streams {
                        incoming: replaced.items + replaced.streams.incoming,
                        ..replaced.streams
                    },
                    seen.push(name),
                    out,
                    location,
                    nesting,
                )
            },
        }
    }
}

} // verus!
