//! What holds of macro replacement.

use crate::error::Location;
use crate::replace::definition::{definition_of, DefinitionView};
use crate::replace::expand::{end_of, replace_spec, replacement_takes, NESTING_LIMIT};
use crate::replace::model::{
    advanced, arguments_spec, bare, call_spec, front, function_spec, list_at, located, name_of,
    opening_spec, origin_of, pieces_at, replaced_spec, replacement_of, rescanned, seeing_takes_away,
    substituted, unseen, CallView, Knowledge, OpeningView, PieceView, Streams,
};
use crate::replace::stream::{FailureView, ItemView, LocatableView};
use crate::replace::token::TokenView;
use vstd::prelude::*;

verus! {

/// A token that is no macro stays as it is, and takes nothing from the stream.
pub proof fn other_tokens_stay(
    knowledge: Knowledge,
    token: ItemView,
    inner: Seq<ItemView>,
    location: Location,
)
    requires
        replacement_of(knowledge, Seq::empty(), token) is None,
    ensures
        replace_spec(knowledge, token, inner, location) == (seq![token], inner),
{
    let streams = Streams { incoming: seq![token], inner };
    let rest = Streams { incoming: streams.incoming.drop_first(), ..streams };
    reveal_with_fuel(replaced_spec, 2);
    assert(rest.incoming =~= Seq::empty());
    assert(Seq::<ItemView>::empty().push(token) =~= seq![token]);
}

/// Whether the token is the name of a defined macro.
pub open spec fn names_a_macro(knowledge: Knowledge, token: TokenView) -> bool {
    token matches TokenView::Id(name) && definition_of(knowledge.definitions, name, 0) is Some
}

/// A name that is not defined, and every token that is not a name, stays.
pub proof fn undefined_tokens_stay(
    knowledge: Knowledge,
    token: LocatableView,
    inner: Seq<ItemView>,
    location: Location,
)
    requires
        !names_a_macro(knowledge, token.data),
    ensures
        replace_spec(knowledge, Ok(token), inner, location) == (
            seq![Ok::<LocatableView, FailureView>(token)],
            inner,
        ),
{
    other_tokens_stay(knowledge, Ok(token), inner, location);
}

/// A cycle stops: a name that came out of its own replacement stays, so that
/// replaced tokens can be fed back.
pub proof fn a_cycle_stops(
    knowledge: Knowledge,
    token: LocatableView,
    inner: Seq<ItemView>,
    location: Location,
)
    requires
        token.data matches TokenView::Id(name) && token.origin.contains(name),
    ensures
        replace_spec(knowledge, Ok(token), inner, location) == (
            seq![Ok::<LocatableView, FailureView>(token)],
            inner,
        ),
{
    other_tokens_stay(knowledge, Ok(token), inner, location);
}

/// Pending tokens that are no macros go out as they are.
proof fn plain_tokens_go_out(
    knowledge: Knowledge,
    streams: Streams,
    seen: Seq<Seq<char>>,
    out: Seq<ItemView>,
    location: Location,
    nesting: nat,
)
    requires
        forall|i: int|
            0 <= i < streams.incoming.len() ==> replacement_of(
                knowledge,
                seen,
                #[trigger] streams.incoming[i],
            ) is None,
    ensures
        ({
            let replaced = replaced_spec(knowledge, streams, seen, out, location, nesting);
            &&& replaced.items == out + streams.incoming
            &&& replaced.streams.inner == streams.inner
        }),
    decreases streams.incoming.len(),
{
    if streams.incoming.len() > 0 {
        let item = streams.incoming[0];
        let rest = Streams { incoming: streams.incoming.drop_first(), ..streams };
        assert forall|i: int| 0 <= i < rest.incoming.len() implies replacement_of(
            knowledge,
            seen,
            #[trigger] rest.incoming[i],
        ) is None by {
            assert(rest.incoming[i] == streams.incoming[i + 1]);
        }
        plain_tokens_go_out(knowledge, rest, seen, out.push(item), location, nesting);
        assert(out.push(item) + rest.incoming =~= out + streams.incoming);
    } else {
        assert(out + streams.incoming =~= out);
    }
}

/// An object macro whose list holds no other macros is replaced with its list,
/// and takes nothing from the stream.
pub proof fn an_object_macro_becomes_its_list(
    knowledge: Knowledge,
    name: Seq<char>,
    body: Seq<TokenView>,
    inner: Seq<ItemView>,
    location: Location,
)
    requires
        definition_of(knowledge.definitions, name, 0) == Some(DefinitionView::Object(body)),
        forall|i: int|
            0 <= i < body.len() ==> !names_a_macro(knowledge, #[trigger] body[i]) || body[i]
                == TokenView::Id(name),
    ensures
        replace_spec(
            knowledge,
            located(TokenView::Id(name), location, Seq::empty()),
            inner,
            location,
        ) == (list_at(body, location, seq![name]), inner),
{
    let token = located(TokenView::Id(name), location, Seq::empty());
    let streams = Streams { incoming: seq![token], inner };
    let rest = Streams { incoming: streams.incoming.drop_first(), ..streams };
    let list = list_at(body, location, Seq::empty().push(name));
    let next = Streams { incoming: list + rest.incoming, ..rest };
    let seen = Seq::<Seq<char>>::empty().push(name);
    assert(rest.incoming =~= Seq::empty());
    assert(next.incoming =~= list);
    assert(seen[0] == name);
    assert(seen.contains(name));
    assert(Seq::<Seq<char>>::empty().push(name) =~= seq![name]);
    assert forall|i: int| 0 <= i < next.incoming.len() implies replacement_of(
        knowledge,
        seen,
        #[trigger] next.incoming[i],
    ) is None by {
        assert(next.incoming[i] == located(body[i], location, Seq::empty().push(name)));
    }
    plain_tokens_go_out(
        knowledge,
        next,
        seen,
        Seq::empty(),
        location,
        NESTING_LIMIT as nat,
    );
    assert(Seq::<ItemView>::empty() + list =~= list);
}

/// A function macro that no parenthesis follows is no call: its name stays,
/// at the end of the tokens.
pub proof fn a_name_alone_is_no_call(
    knowledge: Knowledge,
    name: Seq<char>,
    params: Seq<Seq<char>>,
    body: Seq<TokenView>,
    location: Location,
)
    requires
        definition_of(knowledge.definitions, name, 0) == Some(
            DefinitionView::Function { params, body },
        ),
    ensures
        replace_spec(
            knowledge,
            located(TokenView::Id(name), location, Seq::empty()),
            Seq::empty(),
            location,
        ) == (seq![located(TokenView::Id(name), location, Seq::empty())], Seq::<ItemView>::empty()),
{
    let token = located(TokenView::Id(name), location, Seq::empty());
    let streams = Streams { incoming: seq![token], inner: Seq::empty() };
    let rest = Streams { incoming: streams.incoming.drop_first(), ..streams };
    let seen = Seq::<Seq<char>>::empty().push(name);
    let nesting = NESTING_LIMIT as nat;
    assert(rest.incoming =~= Seq::empty());
    let replaced = function_spec(knowledge, token, params, body, location, rest, nesting);
    assert(replaced.items =~= seq![token]);
    let next = Streams {
        incoming: replaced.items + replaced.streams.incoming,
        ..replaced.streams
    };
    assert(next.incoming =~= seq![token]);
    assert(seen[0] == name);
    assert(seen.contains(name));
    assert(replacement_of(knowledge, seen, next.incoming[0]) is None);
    plain_tokens_go_out(knowledge, next, seen, Seq::empty(), location, nesting);
    assert(Seq::<ItemView>::empty() + seq![token] =~= seq![token]);
}

/// Replacement takes tokens from the front of the stream, if any, and puts
/// none back: what is left is the end of the stream.
pub proof fn the_stream_is_read_from_the_front(
    knowledge: Knowledge,
    token: ItemView,
    inner: Seq<ItemView>,
    location: Location,
)
    ensures
        end_of(replace_spec(knowledge, token, inner, location).1, inner),
{
    replacement_takes(
        knowledge,
        Streams { incoming: seq![token], inner },
        Seq::empty(),
        Seq::empty(),
        location,
        NESTING_LIMIT as nat,
    );
}

/// Whether two items are the same but for where they stand.
pub open spec fn alike(left: ItemView, right: ItemView) -> bool {
    match (left, right) {
        (Ok(left), Ok(right)) => left.data == right.data && left.origin == right.origin,
        (Err(left), Err(right)) => left.error == right.error,
        _ => false,
    }
}

/// Whether two lists of items are the same but for where the items stand.
pub open spec fn all_alike(left: Seq<ItemView>, right: Seq<ItemView>) -> bool {
    left.len() == right.len() && forall|i: int|
        0 <= i < left.len() ==> alike(#[trigger] left[i], #[trigger] right[i])
}

/// The same of two pairs of streams.
spec fn streams_alike(left: Streams, right: Streams) -> bool {
    all_alike(left.incoming, right.incoming) && all_alike(left.inner, right.inner)
}

proof fn advancing_keeps_alike(left: Streams, right: Streams)
    requires
        streams_alike(left, right),
    ensures
        streams_alike(advanced(left), advanced(right)),
        (front(left), front(right)) matches (Some(left), Some(right)) ==> alike(left, right),
        front(left) is Some == front(right) is Some,
{
}

/// What follows a name is read alike.
proof fn openings_are_alike(
    left_name: ItemView,
    right_name: ItemView,
    left: Streams,
    right: Streams,
    left_errors: Seq<ItemView>,
    right_errors: Seq<ItemView>,
)
    requires
        alike(left_name, right_name),
        streams_alike(left, right),
        all_alike(left_errors, right_errors),
    ensures
        ({
            let (left_opening, left_rest) = opening_spec(left_name, left, left_errors);
            let (right_opening, right_rest) = opening_spec(right_name, right, right_errors);
            &&& streams_alike(left_rest, right_rest)
            &&& match (left_opening, right_opening) {
                (OpeningView::NotACall { items: left }, OpeningView::NotACall { items: right }) =>
                    all_alike(left, right),
                (
                    OpeningView::Call { errors: left_errors, space: left_space, paren: left },
                    OpeningView::Call { errors: right_errors, space: right_space, paren: right },
                ) => {
                    &&& all_alike(left_errors, right_errors)
                    &&& left_space is Some == right_space is Some
                    &&& left_space is Some ==> alike(left_space->0, right_space->0)
                    &&& alike(Ok(left), Ok(right))
                },
                _ => false,
            }
        }),
    decreases crate::replace::model::left(left),
{
    advancing_keeps_alike(left, right);
    advancing_keeps_alike(advanced(left), advanced(right));
    if let Some(Err(left_failure)) = front(left) {
        let right_failure = front(right)->0->Err_0;
        openings_are_alike(
            left_name,
            right_name,
            advanced(left),
            advanced(right),
            left_errors.push(Err(left_failure)),
            right_errors.push(Err(right_failure)),
        );
    }
}

/// The arguments of a call are the same wherever they stand.
proof fn arguments_are_the_same(
    left: Streams,
    right: Streams,
    found: Seq<Seq<PieceView>>,
    current: Seq<PieceView>,
    depth: nat,
    left_errors: Seq<ItemView>,
    right_errors: Seq<ItemView>,
)
    requires
        streams_alike(left, right),
        all_alike(left_errors, right_errors),
    ensures
        ({
            let left = arguments_spec(left, found, current, depth, left_errors);
            let right = arguments_spec(right, found, current, depth, right_errors);
            &&& left.arguments == right.arguments
            &&& all_alike(left.errors, right.errors)
            &&& streams_alike(left.streams, right.streams)
        }),
    decreases crate::replace::model::left(left),
{
    advancing_keeps_alike(left, right);
    match front(left) {
        None => {},
        Some(Err(left_failure)) => {
            let right_failure = front(right)->0->Err_0;
            arguments_are_the_same(
                advanced(left),
                advanced(right),
                found,
                current,
                depth,
                left_errors.push(Err(left_failure)),
                right_errors.push(Err(right_failure)),
            );
        },
        Some(Ok(token)) => {
            let piece = PieceView { data: token.data, origin: token.origin };
            if token.data is Comma && depth == 1 {
                arguments_are_the_same(
                    advanced(left),
                    advanced(right),
                    found.push(bare(current)),
                    Seq::empty(),
                    depth,
                    left_errors,
                    right_errors,
                );
            } else if !(token.data is RightParen && depth <= 1) {
                let depth = if token.data is RightParen {
                    (depth - 1) as nat
                } else if token.data is LeftParen {
                    depth + 1
                } else {
                    depth
                };
                arguments_are_the_same(
                    advanced(left),
                    advanced(right),
                    found,
                    current.push(piece),
                    depth,
                    left_errors,
                    right_errors,
                );
            }
        },
    }
}

proof fn functions_are_replaced_alike(
    knowledge: Knowledge,
    left_name: ItemView,
    right_name: ItemView,
    params: Seq<Seq<char>>,
    body: Seq<TokenView>,
    left_location: Location,
    right_location: Location,
    left: Streams,
    right: Streams,
    nesting: nat,
)
    requires
        alike(left_name, right_name),
        streams_alike(left, right),
    ensures
        ({
            let left = function_spec(
                knowledge,
                left_name,
                params,
                body,
                left_location,
                left,
                nesting,
            );
            let right = function_spec(
                knowledge,
                right_name,
                params,
                body,
                right_location,
                right,
                nesting,
            );
            all_alike(left.items, right.items) && streams_alike(left.streams, right.streams)
        }),
    decreases nesting, 0nat, 0nat, 0nat,
{
    openings_are_alike(left_name, right_name, left, right, Seq::empty(), Seq::empty());
    let (left_opening, left_rest) = opening_spec(left_name, left, Seq::empty());
    let (right_opening, right_rest) = opening_spec(right_name, right, Seq::empty());
    if let OpeningView::Call { errors, space, paren } = left_opening {
        let right_errors = right_opening->errors;
        if !(paren.origin.contains(name_of(left_name)) || nesting == 0) {
            arguments_are_the_same(
                left_rest,
                right_rest,
                Seq::empty(),
                Seq::empty(),
                1,
                errors,
                right_errors,
            );
            let left_read = arguments_spec(left_rest, Seq::empty(), Seq::empty(), 1, errors);
            let right_read = arguments_spec(
                right_rest,
                Seq::empty(),
                Seq::empty(),
                1,
                right_errors,
            );
            if let Some(arguments) = left_read.arguments {
                calls_are_replaced_alike(
                    knowledge,
                    CallView {
                        name: name_of(left_name),
                        params,
                        body,
                        arguments,
                        origin: (origin_of(left_name) + paren.origin).push(name_of(left_name)),
                    },
                    left_location,
                    right_location,
                    left_read.errors,
                    right_read.errors,
                    (nesting - 1) as nat,
                );
            }
        }
    }
}

proof fn calls_are_replaced_alike(
    knowledge: Knowledge,
    call: CallView,
    left_location: Location,
    right_location: Location,
    left_errors: Seq<ItemView>,
    right_errors: Seq<ItemView>,
    nesting: nat,
)
    requires
        all_alike(left_errors, right_errors),
    ensures
        all_alike(
            call_spec(knowledge, call, left_location, left_errors, nesting),
            call_spec(knowledge, call, right_location, right_errors, nesting),
        ),
    decreases nesting, 3nat, 0nat, 0nat,
{
    if let Ok(pieces) = substituted(call, knowledge.lexed, 0, Seq::empty()) {
        lists_are_rescanned_alike(
            knowledge,
            pieces_at(pieces, left_location),
            pieces_at(pieces, right_location),
            Seq::empty(),
            Seq::empty(),
            nesting,
        );
    }
}

proof fn lists_are_rescanned_alike(
    knowledge: Knowledge,
    left: Seq<ItemView>,
    right: Seq<ItemView>,
    left_out: Seq<ItemView>,
    right_out: Seq<ItemView>,
    nesting: nat,
)
    requires
        all_alike(left, right),
        all_alike(left_out, right_out),
    ensures
        all_alike(
            rescanned(knowledge, left, left_out, nesting),
            rescanned(knowledge, right, right_out, nesting),
        ),
    decreases nesting, 2nat, left.len(), 0nat,
{
    if left.len() > 0 {
        assert(alike(left[0], right[0]));
        match left[0] {
            Err(failure) => {
                lists_are_rescanned_alike(
                    knowledge,
                    left.drop_first(),
                    right.drop_first(),
                    left_out.push(left[0]),
                    right_out.push(right[0]),
                    nesting,
                );
            },
            Ok(left_token) => {
                let right_token = right[0]->Ok_0;
                let left_streams = Streams {
                    incoming: seq![Ok(left_token)],
                    inner: left.drop_first(),
                };
                let right_streams = Streams {
                    incoming: seq![Ok(right_token)],
                    inner: right.drop_first(),
                };
                items_are_replaced_alike(
                    knowledge,
                    left_streams,
                    right_streams,
                    Seq::empty(),
                    Seq::empty(),
                    Seq::empty(),
                    left_token.location,
                    right_token.location,
                    nesting,
                );
                let left_replaced = replaced_spec(
                    knowledge,
                    left_streams,
                    Seq::empty(),
                    Seq::empty(),
                    left_token.location,
                    nesting,
                );
                let right_replaced = replaced_spec(
                    knowledge,
                    right_streams,
                    Seq::empty(),
                    Seq::empty(),
                    right_token.location,
                    nesting,
                );
                if left_replaced.streams.inner.len() < left.len() {
                    lists_are_rescanned_alike(
                        knowledge,
                        left_replaced.streams.inner,
                        right_replaced.streams.inner,
                        left_out + left_replaced.items,
                        right_out + right_replaced.items,
                        nesting,
                    );
                }
            },
        }
    }
}

proof fn items_are_replaced_alike(
    knowledge: Knowledge,
    left: Streams,
    right: Streams,
    seen: Seq<Seq<char>>,
    left_out: Seq<ItemView>,
    right_out: Seq<ItemView>,
    left_location: Location,
    right_location: Location,
    nesting: nat,
)
    requires
        streams_alike(left, right),
        all_alike(left_out, right_out),
    ensures
        ({
            let left = replaced_spec(knowledge, left, seen, left_out, left_location, nesting);
            let right = replaced_spec(knowledge, right, seen, right_out, right_location, nesting);
            all_alike(left.items, right.items) && streams_alike(left.streams, right.streams)
        }),
    decreases nesting, 1nat, unseen(knowledge.definitions, seen, 0), left.incoming.len(),
{
    if left.incoming.len() > 0 {
        let left_item = left.incoming[0];
        let right_item = right.incoming[0];
        assert(alike(left_item, right_item));
        let left_rest = Streams { incoming: left.incoming.drop_first(), ..left };
        let right_rest = Streams { incoming: right.incoming.drop_first(), ..right };
        assert(streams_alike(left_rest, right_rest));
        let name = name_of(left_item);
        match replacement_of(knowledge, seen, left_item) {
            None => {
                items_are_replaced_alike(
                    knowledge,
                    left_rest,
                    right_rest,
                    seen,
                    left_out.push(left_item),
                    right_out.push(right_item),
                    left_location,
                    right_location,
                    nesting,
                );
            },
            Some(DefinitionView::Object(body)) => {
                seeing_takes_away(knowledge.definitions, seen, name, 0);
                let origin = origin_of(left_item).push(name);
                items_are_replaced_alike(
                    knowledge,
                    Streams {
                        incoming: list_at(body, left_location, origin) + left_rest.incoming,
                        ..left_rest
                    },
                    Streams {
                        incoming: list_at(body, right_location, origin) + right_rest.incoming,
                        ..right_rest
                    },
                    seen.push(name),
                    left_out,
                    right_out,
                    left_location,
                    right_location,
                    nesting,
                );
            },
            Some(DefinitionView::Function { params, body }) => {
                seeing_takes_away(knowledge.definitions, seen, name, 0);
                let left_name = located(TokenView::Id(name), left_location, origin_of(left_item));
                let right_name = located(
                    TokenView::Id(name),
                    right_location,
                    origin_of(right_item),
                );
                functions_are_replaced_alike(
                    knowledge,
                    left_name,
                    right_name,
                    params,
                    body,
                    left_location,
                    right_location,
                    left_rest,
                    right_rest,
                    nesting,
                );
                let left_replaced = function_spec(
                    knowledge,
                    left_name,
                    params,
                    body,
                    left_location,
                    left_rest,
                    nesting,
                );
                let right_replaced = function_spec(
                    knowledge,
                    right_name,
                    params,
                    body,
                    right_location,
                    right_rest,
                    nesting,
                );
                items_are_replaced_alike(
                    knowledge,
                    Streams {
                        incoming: left_replaced.items + left_replaced.streams.incoming,
                        ..left_replaced.streams
                    },
                    Streams {
                        incoming: right_replaced.items + right_replaced.streams.incoming,
                        ..right_replaced.streams
                    },
                    seen.push(name),
                    left_out,
                    right_out,
                    left_location,
                    right_location,
                    nesting,
                );
            },
        }
    }
}

/// A location never decides what is replaced. Two calls that differ only in
/// where the replacement stands, and in where the items of the stream stand,
/// give equally many items, the same tokens and the same errors in the same
/// places, and take equally many items from the stream.
pub proof fn the_location_decides_nothing(
    knowledge: Knowledge,
    token: TokenView,
    left_inner: Seq<ItemView>,
    right_inner: Seq<ItemView>,
    left_location: Location,
    right_location: Location,
)
    requires
        all_alike(left_inner, right_inner),
    ensures
        ({
            let (left, left_rest) = replace_spec(
                knowledge,
                located(token, left_location, Seq::empty()),
                left_inner,
                left_location,
            );
            let (right, right_rest) = replace_spec(
                knowledge,
                located(token, right_location, Seq::empty()),
                right_inner,
                right_location,
            );
            &&& all_alike(left, right)
            &&& left_rest.len() == right_rest.len()
            &&& left_inner == right_inner ==> left_rest == right_rest
        }),
{
    let left = located(token, left_location, Seq::empty());
    let right = located(token, right_location, Seq::empty());
    items_are_replaced_alike(
        knowledge,
        Streams { incoming: seq![left], inner: left_inner },
        Streams { incoming: seq![right], inner: right_inner },
        Seq::empty(),
        Seq::empty(),
        Seq::empty(),
        left_location,
        right_location,
        NESTING_LIMIT as nat,
    );
    the_stream_is_read_from_the_front(knowledge, left, left_inner, left_location);
    the_stream_is_read_from_the_front(knowledge, right, right_inner, right_location);
}

} // verus!
