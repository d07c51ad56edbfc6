//! Replacement of macros in token streams.

use crate::error::Location;
use crate::replace::call::{
    open_call, pieces_view, push_item, read_arguments, streams_of, Call, Lexed, Opening, Piece,
};
use crate::replace::definition::{Definition, Definitions};
use crate::replace::model::{
    advanced, arguments_spec, bare, call_spec, front, function_spec, kept_call, left, list_at,
    located, name_of, opening_spec, origin_of, pieces_at, replaced_spec, replacement_of, rescanned,
    seeing_takes_away, unseen, Knowledge, OpeningView, PieceView, ReplacedView, Streams,
};
use crate::replace::stream::{
    copy_names, item_view, items_view, CppError, Failure, Item, ItemView, Locatable, Peekable,
    TokenStream,
};
use crate::replace::token::{texts_view, tokens_view, Token, TokenView};
use vstd::prelude::*;

verus! {

/// How many macro calls may be replaced inside one another.
pub const NESTING_LIMIT: usize = 0xffff_ffff;

/// What replacement knows.
pub open spec fn knowledge_of(definitions: Definitions, lexed: Lexed) -> Knowledge {
    Knowledge { definitions: definitions@, lexed: lexed@ }
}

/// What a token is replaced with, and what is left of the stream after it.
pub open spec fn replace_spec(
    knowledge: Knowledge,
    token: ItemView,
    inner: Seq<ItemView>,
    location: Location,
) -> (Seq<ItemView>, Seq<ItemView>) {
    let replaced = replaced_spec(
        knowledge,
        Streams { incoming: seq![token], inner },
        Seq::empty(),
        Seq::empty(),
        location,
        NESTING_LIMIT as nat,
    );
    (replaced.items, replaced.streams.inner)
}

/// Whether a list is the end of another.
pub open spec fn end_of(end: Seq<ItemView>, whole: Seq<ItemView>) -> bool {
    end.len() <= whole.len() && end == whole.skip(whole.len() - end.len())
}

proof fn ends_are_ends(first: Seq<ItemView>, second: Seq<ItemView>, third: Seq<ItemView>)
    requires
        end_of(third, second),
        end_of(second, first),
    ensures
        end_of(third, first),
{
    assert(third =~= first.skip(first.len() - third.len()));
}

proof fn advancing_takes(streams: Streams)
    ensures
        end_of(advanced(streams).inner, streams.inner),
        end_of(streams.inner, streams.inner),
{
    assert(streams.inner.skip(0) =~= streams.inner);
    if streams.inner.len() > 0 {
        assert(streams.inner.drop_first() =~= streams.inner.skip(1));
    }
}

/// Looking for arguments takes items from the front of the streams.
proof fn opening_takes(name: ItemView, streams: Streams, errors: Seq<ItemView>)
    ensures
        end_of(opening_spec(name, streams, errors).1.inner, streams.inner),
    decreases left(streams),
{
    advancing_takes(streams);
    let next = advanced(streams);
    advancing_takes(next);
    ends_are_ends(streams.inner, next.inner, advanced(next).inner);
    match front(streams) {
        Some(Err(failure)) => {
            opening_takes(name, next, errors.push(Err(failure)));
            let (_, after) = opening_spec(name, next, errors.push(Err(failure)));
            ends_are_ends(streams.inner, next.inner, after.inner);
        },
        _ => {},
    }
}

/// Reading arguments takes items from the front of the streams.
proof fn reading_takes(
    streams: Streams,
    found: Seq<Seq<PieceView>>,
    current: Seq<PieceView>,
    depth: nat,
    errors: Seq<ItemView>,
)
    ensures
        end_of(
            arguments_spec(streams, found, current, depth, errors).streams.inner,
            streams.inner,
        ),
    decreases left(streams),
{
    advancing_takes(streams);
    let next = advanced(streams);
    match front(streams) {
        None => {},
        Some(Err(failure)) => {
            let failed = errors.push(Err(failure));
            reading_takes(next, found, current, depth, failed);
            let read = arguments_spec(next, found, current, depth, failed);
            ends_are_ends(streams.inner, next.inner, read.streams.inner);
        },
        Some(Ok(token)) => {
            let piece = PieceView { data: token.data, origin: token.origin };
            if token.data is Comma && depth == 1 {
                let more = found.push(bare(current));
                reading_takes(next, more, Seq::empty(), depth, errors);
                let read = arguments_spec(next, more, Seq::empty(), depth, errors);
                ends_are_ends(streams.inner, next.inner, read.streams.inner);
            } else if token.data is RightParen && depth <= 1 {
            } else {
                let inside = if token.data is RightParen {
                    (depth - 1) as nat
                } else if token.data is LeftParen {
                    depth + 1
                } else {
                    depth
                };
                reading_takes(next, found, current.push(piece), inside, errors);
                let read = arguments_spec(next, found, current.push(piece), inside, errors);
                ends_are_ends(streams.inner, next.inner, read.streams.inner);
            }
        },
    }
}

/// Replacing a function macro takes items from the front of the streams.
proof fn calling_takes(
    knowledge: Knowledge,
    name: ItemView,
    params: Seq<Seq<char>>,
    body: Seq<TokenView>,
    location: Location,
    streams: Streams,
    nesting: nat,
)
    ensures
        end_of(
            function_spec(
                knowledge,
                name,
                params,
                body,
                location,
                streams,
                nesting,
            ).streams.inner,
            streams.inner,
        ),
{
    opening_takes(name, streams, Seq::empty());
    let (opening, after) = opening_spec(name, streams, Seq::empty());
    if let OpeningView::Call { errors, space, paren } = opening {
        reading_takes(after, Seq::empty(), Seq::empty(), 1, errors);
        let read = arguments_spec(after, Seq::empty(), Seq::empty(), 1, errors);
        ends_are_ends(streams.inner, after.inner, read.streams.inner);
    }
}

/// Replacement takes items from the front of the stream behind the pending
/// ones, and puts none back.
pub proof fn replacement_takes(
    knowledge: Knowledge,
    streams: Streams,
    seen: Seq<Seq<char>>,
    out: Seq<ItemView>,
    location: Location,
    nesting: nat,
)
    ensures
        end_of(
            replaced_spec(knowledge, streams, seen, out, location, nesting).streams.inner,
            streams.inner,
        ),
        replaced_spec(
            knowledge,
            streams,
            seen,
            out,
            location,
            nesting,
        ).streams.incoming.len() == 0,
    decreases unseen(knowledge.definitions, seen, 0), streams.incoming.len(),
{
    advancing_takes(streams);
    if streams.incoming.len() > 0 {
        let item = streams.incoming[0];
        let rest = Streams { incoming: streams.incoming.drop_first(), ..streams };
        let name = name_of(item);
        match replacement_of(knowledge, seen, item) {
            None => {
                replacement_takes(knowledge, rest, seen, out.push(item), location, nesting);
            },
            Some(crate::replace::definition::DefinitionView::Object(body)) => {
                seeing_takes_away(knowledge.definitions, seen, name, 0);
                replacement_takes(
                    knowledge,
                    Streams {
                        incoming: list_at(body, location, origin_of(item).push(name))
                            + rest.incoming,
                        ..rest
                    },
                    seen.push(name),
                    out,
                    location,
                    nesting,
                );
            },
            Some(crate::replace::definition::DefinitionView::Function { params, body }) => {
                seeing_takes_away(knowledge.definitions, seen, name, 0);
                let id = located(TokenView::Id(name), location, origin_of(item));
                calling_takes(knowledge, id, params, body, location, rest, nesting);
                let replaced = function_spec(
                    knowledge,
                    id,
                    params,
                    body,
                    location,
                    rest,
                    nesting,
                );
                let next = Streams {
                    incoming: replaced.items + replaced.streams.incoming,
                    ..replaced.streams
                };
                replacement_takes(knowledge, next, seen.push(name), out, location, nesting);
                let after = replaced_spec(
                    knowledge,
                    next,
                    seen.push(name),
                    out,
                    location,
                    nesting,
                );
                ends_are_ends(streams.inner, next.inner, after.streams.inner);
            },
        }
    }
}

/// Whether a name is in a list.
fn contains_name(names: &Vec<String>, name: &String) -> (result: bool)
    ensures
        result == texts_view(names@).contains(name@),
{
    let ghost texts = texts_view(names@);
    let mut index: usize = 0;
    while index < names.len()
        invariant
            index <= names@.len(),
            texts == texts_view(names@),
            forall|i: int| 0 <= i < index ==> #[trigger] texts[i] != name@,
        decreases names@.len() - index,
    {
        if names[index] == *name {
            assert(texts[index as int] == name@);
            return true;
        }
        index += 1;
    }
    false
}

/// Adds a name to a list.
fn push_name(names: &mut Vec<String>, name: String)
    ensures
        texts_view(final(names)@) == texts_view(old(names)@).push(name@),
{
    names.push(name);
    assert(texts_view(names@) =~= texts_view(old(names)@).push(name@));
}

/// The origin of what a macro adds: that of its name, and of a parenthesis,
/// and the macro itself.
fn extend_origin(first: &Vec<String>, second: &Vec<String>, name: &String) -> (result: Vec<String>)
    ensures
        texts_view(result@) == (texts_view(first@) + texts_view(second@)).push(name@),
{
    let mut origin = copy_names(first);
    let mut more = copy_names(second);
    let ghost start = texts_view(origin@);
    let ghost end = texts_view(more@);
    origin.append(&mut more);
    assert(texts_view(origin@) =~= start + end);
    push_name(&mut origin, name.clone());
    origin
}

/// Adds the items of `more` behind those of `items`.
fn append_items(items: &mut Vec<Item>, more: Vec<Item>)
    ensures
        items_view(final(items)@) == items_view(old(items)@) + items_view(more@),
{
    let ghost start = items_view(items@);
    let ghost end = items_view(more@);
    let mut more = more;
    items.append(&mut more);
    assert(items_view(items@) =~= start + end);
}

/// The tokens of a replacement list placed at `location`.
fn place_list(tokens: &Vec<Token>, location: Location, origin: &Vec<String>) -> (result: Vec<Item>)
    ensures
        items_view(result@) == list_at(tokens_view(tokens@), location, texts_view(origin@)),
{
    let mut items: Vec<Item> = Vec::new();
    let ghost expected = list_at(tokens_view(tokens@), location, texts_view(origin@));
    let mut index: usize = 0;
    while index < tokens.len()
        invariant
            index <= tokens@.len(),
            expected == list_at(tokens_view(tokens@), location, texts_view(origin@)),
            items@.len() == index,
            forall|i: int| 0 <= i < index ==> item_view(#[trigger] items@[i]) == expected[i],
        decreases tokens@.len() - index,
    {
        items.push(
            Ok(
                Locatable {
                    data: tokens[index].duplicate(),
                    location,
                    origin: copy_names(origin),
                },
            ),
        );
        index += 1;
    }
    assert(items_view(items@) =~= expected);
    items
}

/// The pieces placed at `location`.
fn place_pieces(pieces: &Vec<Piece>, location: Location) -> (result: Vec<Item>)
    ensures
        items_view(result@) == pieces_at(pieces_view(pieces@), location),
{
    let mut items: Vec<Item> = Vec::new();
    let ghost expected = pieces_at(pieces_view(pieces@), location);
    let mut index: usize = 0;
    while index < pieces.len()
        invariant
            index <= pieces@.len(),
            expected == pieces_at(pieces_view(pieces@), location),
            items@.len() == index,
            forall|i: int| 0 <= i < index ==> item_view(#[trigger] items@[i]) == expected[i],
        decreases pieces@.len() - index,
    {
        items.push(
            Ok(
                Locatable {
                    data: pieces[index].data.duplicate(),
                    location,
                    origin: copy_names(&pieces[index].origin),
                },
            ),
        );
        index += 1;
    }
    assert(items_view(items@) =~= expected);
    items
}

/// A list with one item.
fn single(item: Item) -> (result: Vec<Item>)
    ensures
        items_view(result@) == seq![item_view(item)],
{
    let mut items: Vec<Item> = Vec::new();
    items.push(item);
    assert(items_view(items@) =~= seq![item_view(item)]);
    items
}

/// The items of a call that is not replaced.
fn keep_call(errors: Vec<Item>, name: Locatable, space: Option<Item>, paren: Locatable) -> (result:
    Vec<Item>)
    ensures
        items_view(result@) == kept_call(
            items_view(errors@),
            Ok(name@),
            crate::replace::call::optional_view(space),
            paren@,
        ),
{
    let mut items = errors;
    push_item(&mut items, Ok(name));
    if let Some(space) = space {
        push_item(&mut items, space);
    }
    push_item(&mut items, Ok(paren));
    items
}

/// Perform recursive macro replacement on `token`.
///
/// This first performs object-macro replacement, then function-macro replacement.
/// For example, consider this C program:
/// ```c
/// #define f(a, b) a + b
/// #define g f
/// #define c d
/// g(c, 1)
/// ```
/// First, the name of the function will be replaced: `f(c, 1)`.
/// Finally, function-macros are replaced, and their arguments with them:
/// `d + 1`.
///
/// If at any point there is a cyclic replacement, no error is generated.
/// Instead, replacement immediately stops for the current token.
/// However, future tokens may still be replaced. For example, take
/// ```c
/// #define b c
/// #define f(a) g(a + 1)
/// #define g(a) f(a)
/// f(b)
/// ```
/// The cycle f -> g will be detected after the first time through: `f(b)` -> `g(b + 1)` -> `f(b + 1)`.
/// Then, replacements of later tokens occur: `f(c + 1)`.
///
/// A token remembers the macros that it came out of, so that feeding replaced
/// tokens back does not generate tokens without end: take
/// ```c
/// #define sa_handler   __sa_handler.sa_handler
/// sa_handler
/// ```
/// The second `sa_handler` came out of `sa_handler` and is not replaced again.
///
/// `inner` is the underlying stream of tokens, from which the arguments of a
/// function macro are taken where the tokens generated by replacing `token`
/// do not hold them.
///
/// `location` is where the replacement stands.
#[must_use]
pub fn replace<I: Peekable>(
    definitions: &Definitions,
    lexed: &Lexed,
    token: Token,
    inner: &mut I,
    location: Location,
) -> (result: Vec<Item>)
    ensures
        (items_view(result@), final(inner).remaining()) == replace_spec(
            knowledge_of(*definitions, *lexed),
            located(token@, location, Seq::empty()),
            old(inner).remaining(),
            location,
        ),
{
    let origin: Vec<String> = Vec::new();
    assert(texts_view(origin@) =~= Seq::empty());
    let first = Locatable { data: token, location, origin };
    replace_boxed(definitions, lexed, first, inner, location, NESTING_LIMIT)
}

/// Replaces one token and everything that comes out of it.
fn replace_boxed<I: Peekable>(
    definitions: &Definitions,
    lexed: &Lexed,
    token: Locatable,
    inner: &mut I,
    location: Location,
    nesting: usize,
) -> (result: Vec<Item>)
    ensures
        ({
            let replaced = replaced_spec(
                knowledge_of(*definitions, *lexed),
                Streams { incoming: seq![Ok(token@)], inner: old(inner).remaining() },
                Seq::empty(),
                Seq::empty(),
                location,
                nesting as nat,
            );
            &&& items_view(result@) == replaced.items
            &&& final(inner).remaining() == replaced.streams.inner
        }),
    decreases nesting, 2nat, 0nat,
{
    let ghost knowledge = knowledge_of(*definitions, *lexed);
    let mut seen: Vec<String> = Vec::new();
    let mut out: Vec<Item> = Vec::new();
    let mut pending = single(Ok(token));
    let ghost start = streams_of(pending@, *inner);
    assert(texts_view(seen@) =~= Seq::empty());
    assert(items_view(out@) =~= Seq::empty());
    while pending.len() > 0
        invariant
            knowledge == knowledge_of(*definitions, *lexed),
            start == (Streams { incoming: seq![Ok(token@)], inner: old(inner).remaining() }),
            replaced_spec(
                knowledge,
                streams_of(pending@, *inner),
                texts_view(seen@),
                items_view(out@),
                location,
                nesting as nat,
            ) == replaced_spec(
                knowledge,
                start,
                Seq::empty(),
                Seq::empty(),
                location,
                nesting as nat,
            ),
        decreases unseen(knowledge.definitions, texts_view(seen@), 0), pending@.len(),
    {
        let ghost before = streams_of(pending@, *inner);
        let item = pending.remove(0);
        let ghost rest = Streams { incoming: before.incoming.drop_first(), ..before };
        assert(streams_of(pending@, *inner).incoming =~= rest.incoming);
        if let Ok(token) = &item {
            if let Token::Id(name) = &token.data {
                if !contains_name(&seen, name) && !contains_name(&token.origin, name) {
                    match definitions.get(name.as_str()) {
                        Some(Definition::Object(body)) => {
                            proof {
                                seeing_takes_away(
                                    knowledge.definitions,
                                    texts_view(seen@),
                                    name@,
                                    0,
                                );
                            }
                            push_name(&mut seen, name.clone());
                            let mut origin = copy_names(&token.origin);
                            push_name(&mut origin, name.clone());
                            // The new tokens go before the pending ones:
                            // `#define a b c d` and `#define b 1 + 2` make
                            // `1 + 2 c d` of `a`, not `c d 1 + 2`.
                            let mut items = place_list(body, location, &origin);
                            append_items(&mut items, pending);
                            pending = items;
                            continue;
                        },
                        Some(Definition::Function { params, body }) => {
                            proof {
                                seeing_takes_away(
                                    knowledge.definitions,
                                    texts_view(seen@),
                                    name@,
                                    0,
                                );
                            }
                            push_name(&mut seen, name.clone());
                            let id = Locatable {
                                data: Token::Id(name.clone()),
                                location,
                                origin: copy_names(&token.origin),
                            };
                            let mut items = replace_function(
                                definitions,
                                lexed,
                                id,
                                name,
                                params,
                                body,
                                location,
                                &mut pending,
                                inner,
                                nesting,
                            );
                            append_items(&mut items, pending);
                            pending = items;
                            continue;
                        },
                        None => {},
                    }
                }
            }
        }
        push_item(&mut out, item);
    }
    out
}

/// Replaces a function macro, given its name and what follows it.
fn replace_function<I: Peekable>(
    definitions: &Definitions,
    lexed: &Lexed,
    id: Locatable,
    name: &String,
    params: &Vec<String>,
    body: &Vec<Token>,
    location: Location,
    incoming: &mut Vec<Item>,
    inner: &mut I,
    nesting: usize,
) -> (result: Vec<Item>)
    requires
        id@.data == TokenView::Id(name@),
    ensures
        (ReplacedView {
            items: items_view(result@),
            streams: streams_of(final(incoming)@, *final(inner)),
        }) == function_spec(
            knowledge_of(*definitions, *lexed),
            Ok(id@),
            texts_view(params@),
            tokens_view(body@),
            location,
            streams_of(old(incoming)@, *old(inner)),
            nesting as nat,
        ),
    decreases nesting, 1nat, 0nat,
{
    let name_token = id.duplicate();
    match open_call(id, incoming, inner) {
        Opening::NotACall { items } => items,
        Opening::Call { errors, space, paren } => {
            if contains_name(&paren.origin, name) || nesting == 0 {
                return keep_call(errors, name_token, space, paren);
            }
            let read = read_arguments(incoming, inner, errors);
            match read.arguments {
                None => read.errors,
                Some(arguments) => {
                    let call = Call {
                        name: name.clone(),
                        params,
                        body,
                        arguments,
                        origin: extend_origin(&name_token.origin, &paren.origin, name),
                    };
                    replace_call(definitions, lexed, &call, location, read.errors, nesting - 1)
                },
            }
        },
    }
}

/// Replaces a call with its arguments.
fn replace_call(
    definitions: &Definitions,
    lexed: &Lexed,
    call: &Call<'_>,
    location: Location,
    errors: Vec<Item>,
    nesting: usize,
) -> (result: Vec<Item>)
    ensures
        items_view(result@) == call_spec(
            knowledge_of(*definitions, *lexed),
            call@,
            location,
            items_view(errors@),
            nesting as nat,
        ),
    decreases nesting, 4nat, 0nat,
{
    let found: usize = call.arguments.len();
    let expected: usize = call.params.len();
    if found != expected {
        // A macro that takes one empty argument and one that takes none are
        // called alike: only the number of parameters tells them apart.
        assert(found == 1 ==> call@.arguments[0] == pieces_view(call.arguments@[0]@));
        if !(found == 1 && expected == 0 && call.arguments[0].len() == 0) {
            let error = CppError::TooFewArguments(expected, found);
            return single(Err(Failure { location, error }));
        }
    }
    match call.substitute(lexed) {
        Err(error) => single(Err(Failure { location, error })),
        Ok(pieces) => {
            let items = place_pieces(&pieces, location);
            let rescanned = rescan(definitions, lexed, items, nesting);
            let mut result = errors;
            append_items(&mut result, rescanned);
            result
        },
    }
}

/// Scans a replacement list for more macros.
fn rescan(definitions: &Definitions, lexed: &Lexed, items: Vec<Item>, nesting: usize) -> (result:
    Vec<Item>)
    ensures
        items_view(result@) == rescanned(
            knowledge_of(*definitions, *lexed),
            items_view(items@),
            Seq::empty(),
            nesting as nat,
        ),
    decreases nesting, 3nat, 0nat,
{
    let ghost knowledge = knowledge_of(*definitions, *lexed);
    let ghost start = items_view(items@);
    let mut input = TokenStream::new(items);
    let mut out: Vec<Item> = Vec::new();
    assert(items_view(out@) =~= Seq::empty());
    loop
        invariant
            knowledge == knowledge_of(*definitions, *lexed),
            start == items_view(items@),
            rescanned(knowledge, input.remaining(), items_view(out@), nesting as nat)
                == rescanned(knowledge, start, Seq::empty(), nesting as nat),
        decreases input.remaining().len(),
    {
        let ghost before = input.remaining();
        match input.next() {
            None => {
                return out;
            },
            Some(Err(failure)) => {
                push_item(&mut out, Err(failure));
            },
            Some(Ok(token)) => {
                let location = token.location;
                proof {
                    replacement_takes(
                        knowledge,
                        Streams { incoming: seq![Ok(token@)], inner: before.drop_first() },
                        Seq::empty(),
                        Seq::empty(),
                        location,
                        nesting as nat,
                    );
                }
                let items = replace_boxed(
                    definitions,
                    lexed,
                    token,
                    &mut input,
                    location,
                    nesting,
                );
                append_items(&mut out, items);
            },
        }
    }
}

/// The tokens of a stream with their macros replaced.
pub struct Replace<'a, I: Peekable> {
    iter: I,
    definitions: &'a Definitions,
    lexed: &'a Lexed,
}

/// Replaces the macros in a stream.
pub fn replace_iter<'a, I: Peekable>(
    iter: I,
    definitions: &'a Definitions,
    lexed: &'a Lexed,
) -> (result: Replace<'a, I>)
    ensures
        result.remaining() == iter.remaining(),
        result.knowledge() == knowledge_of(*definitions, *lexed),
{
    Replace { iter, definitions, lexed }
}

impl<'a, I: Peekable> Replace<'a, I> {
    /// The tokens of the stream that are still to come.
    pub closed spec fn remaining(&self) -> Seq<ItemView> {
        self.iter.remaining()
    }

    /// What replacement knows.
    pub closed spec fn knowledge(&self) -> Knowledge {
        knowledge_of(*self.definitions, *self.lexed)
    }

    /// What the next token of the stream is replaced with.
    pub fn next(&mut self) -> (result: Option<Vec<Item>>)
        ensures
            final(self).knowledge() == old(self).knowledge(),
            (match result {
                None => old(self).remaining().len() == 0 && final(self).remaining() == old(
                    self,
                ).remaining(),
                Some(items) => old(self).remaining().len() > 0 && (match old(
                    self,
                ).remaining()[0] {
                    Err(failure) => items_view(items@) == seq![
                        Err::<
                            crate::replace::stream::LocatableView,
                            crate::replace::stream::FailureView,
                        >(failure),
                    ] && final(self).remaining() == old(self).remaining().drop_first(),
                    Ok(token) => (items_view(items@), final(self).remaining()) == replace_spec(
                        old(self).knowledge(),
                        Ok(token),
                        old(self).remaining().drop_first(),
                        token.location,
                    ),
                }),
            }),
    {
        match self.iter.next() {
            Some(Ok(token)) => {
                let location = token.location;
                Some(
                    replace_boxed(
                        self.definitions,
                        self.lexed,
                        token,
                        &mut self.iter,
                        location,
                        NESTING_LIMIT,
                    ),
                )
            },
            Some(Err(failure)) => Some(single(Err(failure))),
            None => None,
        }
    }
}

} // verus!
