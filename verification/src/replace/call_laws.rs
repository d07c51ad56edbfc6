//! What a call of a function macro reads, and what its list becomes.

use crate::error::Location;
use crate::replace::laws::names_a_macro;
use crate::replace::model::{
    advanced, argument_of, arguments_spec, bare, call_spec, front, function_spec, hash_at, is_space,
    lexed_as, name_of, operand, origin_of, parameter_position, past_spaces, past_spaces_is_ahead,
    pieces_at, replaced_spec, replacement_of, rescanned, spelling, string_text, substituted,
    without_end_spaces, without_start_spaces, CallView, Knowledge, LexedView, PieceView, Streams,
};
use crate::replace::stream::{CppErrorView, FailureView, ItemView, LocatableView};
use crate::replace::token::{escaped, trimmed, trimmed_end, trimmed_start, white, TokenView};
use vstd::prelude::*;
use vstd::utf8::encode_utf8;

verus! {

/// The items still to come, in order.
pub open spec fn coming(streams: Streams) -> Seq<ItemView> {
    streams.incoming + streams.inner
}

/// How many more parentheses are opened than closed among the first `count`
/// pieces.
pub open spec fn level(pieces: Seq<PieceView>, count: int) -> int
    decreases count,
{
    if count <= 0 {
        0
    } else {
        level(pieces, count - 1) + if pieces[count - 1].data is LeftParen {
            1int
        } else if pieces[count - 1].data is RightParen {
            -1int
        } else {
            0int
        }
    }
}

/// Whether the pieces can be one argument: their parentheses match, and their
/// commas stand in parentheses.
pub open spec fn one_argument(pieces: Seq<PieceView>) -> bool {
    &&& forall|k: int| 0 <= k <= pieces.len() ==> #[trigger] level(pieces, k) >= 0
    &&& level(pieces, pieces.len() as int) == 0
    &&& forall|k: int|
        0 <= k < pieces.len() && (#[trigger] pieces[k]).data is Comma ==> level(pieces, k) > 0
}

/// Whether the pieces are the next to come.
pub open spec fn come_next(streams: Streams, pieces: Seq<PieceView>) -> bool {
    &&& pieces.len() <= coming(streams).len()
    &&& forall|k: int|
        0 <= k < pieces.len() ==> (#[trigger] coming(streams)[k] matches Ok(token) && token.data
            == pieces[k].data && token.origin == pieces[k].origin)
}

/// The streams after so many items.
pub open spec fn after_items(streams: Streams, count: nat) -> Streams
    decreases count,
{
    if count == 0 {
        streams
    } else {
        advanced(after_items(streams, (count - 1) as nat))
    }
}

/// Reading on takes away from the front.
proof fn the_rest_is_coming(streams: Streams, count: nat)
    requires
        count <= coming(streams).len(),
    ensures
        coming(after_items(streams, count)) == coming(streams).skip(count as int),
        count < coming(streams).len() ==> front(after_items(streams, count)) == Some(
            coming(streams)[count as int],
        ),
    decreases count,
{
    if count > 0 {
        the_rest_is_coming(streams, (count - 1) as nat);
        let before = after_items(streams, (count - 1) as nat);
        assert(coming(before).len() > 0);
        assert(coming(advanced(before)) =~= coming(before).drop_first());
        assert(coming(before).drop_first() =~= coming(streams).skip(count as int));
    } else {
        assert(coming(streams).skip(0) =~= coming(streams));
    }
    let now = after_items(streams, count);
    if count < coming(streams).len() {
        assert(coming(now)[0] == coming(streams)[count as int]);
    }
}

proof fn pieces_are_gathered(
    streams: Streams,
    pieces: Seq<PieceView>,
    count: nat,
    found: Seq<Seq<PieceView>>,
    errors: Seq<ItemView>,
)
    requires
        come_next(streams, pieces),
        one_argument(pieces),
        count <= pieces.len(),
    ensures
        arguments_spec(streams, found, Seq::empty(), 1, errors) == arguments_spec(
            after_items(streams, count),
            found,
            pieces.take(count as int),
            (1 + level(pieces, count as int)) as nat,
            errors,
        ),
    decreases count,
{
    if count > 0 {
        let last = (count - 1) as nat;
        pieces_are_gathered(streams, pieces, last, found, errors);
        the_rest_is_coming(streams, last);
        let piece = pieces[last as int];
        assert(coming(streams)[last as int]->Ok_0.data == piece.data);
        assert(pieces.take(last as int).push(piece) =~= pieces.take(count as int));
        assert(level(pieces, last as int) >= 0);
        assert(level(pieces, count as int) >= 0);
    } else {
        assert(pieces.take(0) =~= Seq::empty());
    }
}

/// A comma outside parentheses ends an argument and starts the next one.
pub proof fn a_comma_ends_an_argument(
    streams: Streams,
    pieces: Seq<PieceView>,
    found: Seq<Seq<PieceView>>,
    errors: Seq<ItemView>,
)
    requires
        come_next(streams, pieces),
        one_argument(pieces),
        pieces.len() < coming(streams).len(),
        coming(streams)[pieces.len() as int] matches Ok(token) && token.data is Comma,
    ensures
        ({
            let rest = after_items(streams, pieces.len() + 1);
            &&& coming(rest) == coming(streams).skip(pieces.len() as int + 1)
            &&& arguments_spec(streams, found, Seq::empty(), 1, errors) == arguments_spec(
                rest,
                found.push(bare(pieces)),
                Seq::empty(),
                1,
                errors,
            )
        }),
{
    pieces_are_gathered(streams, pieces, pieces.len(), found, errors);
    the_rest_is_coming(streams, pieces.len());
    the_rest_is_coming(streams, pieces.len() + 1);
    assert(pieces.take(pieces.len() as int) =~= pieces);
}

/// The parenthesis that closes a call ends its last argument, and what follows
/// is left alone.
pub proof fn a_parenthesis_ends_the_arguments(
    streams: Streams,
    pieces: Seq<PieceView>,
    found: Seq<Seq<PieceView>>,
    errors: Seq<ItemView>,
)
    requires
        come_next(streams, pieces),
        one_argument(pieces),
        pieces.len() < coming(streams).len(),
        coming(streams)[pieces.len() as int] matches Ok(token) && token.data is RightParen,
    ensures
        ({
            let read = arguments_spec(streams, found, Seq::empty(), 1, errors);
            &&& read.arguments == Some(found.push(bare(pieces)))
            &&& read.errors == errors
            &&& coming(read.streams) == coming(streams).skip(pieces.len() as int + 1)
        }),
{
    pieces_are_gathered(streams, pieces, pieces.len(), found, errors);
    the_rest_is_coming(streams, pieces.len());
    the_rest_is_coming(streams, pieces.len() + 1);
    assert(pieces.take(pieces.len() as int) =~= pieces);
}

proof fn end_spaces_go(pieces: Seq<PieceView>) -> (end: int)
    ensures
        0 <= end <= pieces.len(),
        without_end_spaces(pieces) == pieces.take(end),
        forall|k: int| end <= k < pieces.len() ==> is_space((#[trigger] pieces[k]).data),
        end > 0 ==> !is_space(pieces[end - 1].data),
    decreases pieces.len(),
{
    if pieces.len() > 0 && is_space(pieces.last().data) {
        let end = end_spaces_go(pieces.drop_last());
        assert(pieces.drop_last().take(end) =~= pieces.take(end));
        assert forall|k: int| end <= k < pieces.len() implies is_space(
            (#[trigger] pieces[k]).data,
        ) by {
            if k < pieces.len() - 1 {
                assert(pieces.drop_last()[k] == pieces[k]);
            }
        }
        end
    } else {
        assert(pieces.take(pieces.len() as int) =~= pieces);
        pieces.len() as int
    }
}

proof fn start_spaces_go(pieces: Seq<PieceView>) -> (start: int)
    ensures
        0 <= start <= pieces.len(),
        without_start_spaces(pieces) == pieces.skip(start),
        forall|k: int| 0 <= k < start ==> is_space((#[trigger] pieces[k]).data),
        start < pieces.len() ==> !is_space(pieces[start].data),
    decreases pieces.len(),
{
    if pieces.len() > 0 && is_space(pieces[0].data) {
        let start = start_spaces_go(pieces.drop_first());
        assert(pieces.drop_first().skip(start) =~= pieces.skip(start + 1));
        assert forall|k: int| 0 <= k < start + 1 implies is_space((#[trigger] pieces[k]).data) by {
            if k > 0 {
                assert(pieces.drop_first()[k - 1] == pieces[k]);
            }
        }
        start + 1
    } else {
        assert(pieces.skip(0) =~= pieces);
        0
    }
}

/// An argument is what stands between the white space at its two ends, with
/// the white space inside it.
pub proof fn an_argument_loses_the_space_around_it(pieces: Seq<PieceView>) -> (ends: (int, int))
    ensures
        0 <= ends.0 <= ends.1 <= pieces.len(),
        bare(pieces) == pieces.subrange(ends.0, ends.1),
        forall|k: int|
            0 <= k < ends.0 || ends.1 <= k < pieces.len() ==> is_space((#[trigger] pieces[k]).data),
        ends.0 < ends.1 ==> !is_space(pieces[ends.0].data) && !is_space(pieces[ends.1 - 1].data),
{
    let end = end_spaces_go(pieces);
    let kept = pieces.take(end);
    let start = start_spaces_go(kept);
    assert(kept.skip(start) =~= pieces.subrange(start, end));
    assert forall|k: int| 0 <= k < start || end <= k < pieces.len() implies is_space(
        (#[trigger] pieces[k]).data,
    ) by {
        if k < start {
            assert(kept[k] == pieces[k]);
        }
    }
    if start < end {
        assert(kept[start] == pieces[start]);
    }
    (start, end)
}

proof fn found_first(params: Seq<Seq<char>>, name: Seq<char>, from: nat)
    ensures
        parameter_position(params, name, from) matches Some(position) ==> from <= position
            < params.len() && params[position as int] == name,
        parameter_position(params, name, from) is None ==> forall|i: int|
            from <= i < params.len() ==> #[trigger] params[i] != name,
    decreases params.len() - from,
{
    if from < params.len() && params[from as int] != name {
        found_first(params, name, from + 1);
    }
}

/// A parameter of the list stands for the argument in its place, and any other
/// token for itself.
pub proof fn a_parameter_stands_for_its_argument(call: CallView, i: int)
    requires
        forall|j: int, k: int|
            0 <= j < k < call.params.len() ==> #[trigger] call.params[j]
                != #[trigger] call.params[k],
        call.params.len() == call.arguments.len(),
        0 <= i < call.params.len(),
    ensures
        argument_of(call, TokenView::Id(call.params[i])) == Some(call.arguments[i]),
        operand(call, TokenView::Id(call.params[i])) == call.arguments[i],
{
    found_first(call.params, call.params[i], 0);
}

/// A token of the list that names no parameter stands for itself.
pub proof fn any_other_token_stands_for_itself(call: CallView, token: TokenView)
    requires
        token matches TokenView::Id(name) ==> !call.params.contains(name),
    ensures
        operand(call, token) == seq![PieceView { data: token, origin: call.origin }],
{
    if let TokenView::Id(name) = token {
        found_first(call.params, name, 0);
    }
}

/// The list of a call from `from` on with every parameter replaced by its
/// argument and every white space by one space.
pub open spec fn filled_in(call: CallView, from: nat) -> Seq<PieceView>
    decreases call.body.len() - from,
{
    if from >= call.body.len() {
        Seq::empty()
    } else {
        let token = call.body[from as int];
        (if is_space(token) {
            seq![PieceView { data: TokenView::Whitespace(" "@), origin: call.origin }]
        } else {
            operand(call, token)
        }) + filled_in(call, from + 1)
    }
}

/// A list without hashes becomes itself with every parameter replaced by its
/// argument.
pub proof fn a_list_without_hashes_is_filled_in(
    call: CallView,
    lexed: Seq<LexedView>,
    index: nat,
    out: Seq<PieceView>,
)
    requires
        forall|k: int| index <= k < call.body.len() ==> !((#[trigger] call.body[k]) is Hash),
    ensures
        substituted(call, lexed, index, out) == Ok::<Seq<PieceView>, CppErrorView>(
            out + filled_in(call, index),
        ),
    decreases call.body.len() - index,
{
    if index < call.body.len() {
        let token = call.body[index as int];
        past_spaces_is_ahead(call.body, index + 1);
        let next = past_spaces(call.body, index + 1);
        assert(!hash_at(call.body, next));
        let more = if is_space(token) {
            seq![PieceView { data: TokenView::Whitespace(" "@), origin: call.origin }]
        } else {
            operand(call, token)
        };
        a_list_without_hashes_is_filled_in(call, lexed, index + 1, out + more);
        if is_space(token) {
            assert(out.push(more[0]) =~= out + more);
        }
        assert((out + more) + filled_in(call, index + 1) =~= out + filled_in(call, index));
    } else {
        assert(out + filled_in(call, index) =~= out);
    }
}

/// Skipping white space skips nothing else, and all of it.
pub proof fn only_spaces_are_skipped(body: Seq<TokenView>, from: nat)
    requires
        from <= body.len(),
    ensures
        from <= past_spaces(body, from) <= body.len(),
        forall|k: int| from <= k < past_spaces(body, from) ==> is_space(#[trigger] body[k]),
        past_spaces(body, from) < body.len() ==> !is_space(body[past_spaces(body, from) as int]),
    decreases body.len() - from,
{
    if from < body.len() && is_space(body[from as int]) {
        only_spaces_are_skipped(body, from + 1);
    }
}

/// A hash before a parameter spells the parameter's argument as one string
/// literal.
pub proof fn a_hash_spells_its_argument(
    call: CallView,
    lexed: Seq<LexedView>,
    index: nat,
    at: nat,
    i: int,
    out: Seq<PieceView>,
)
    requires
        index < at < call.body.len(),
        call.body[index as int] is Hash,
        forall|k: int| index < k < at ==> is_space(#[trigger] call.body[k]),
        call.body[at as int] == TokenView::Id(call.params[i]),
        forall|j: int, k: int|
            0 <= j < k < call.params.len() ==> #[trigger] call.params[j]
                != #[trigger] call.params[k],
        call.params.len() == call.arguments.len(),
        0 <= i < call.params.len(),
        encode_utf8(string_text(call.arguments[i])).len() <= u32::MAX,
    ensures
        ({
            let text = string_text(call.arguments[i]);
            &&& substituted(call, lexed, index, out) == substituted(
                call,
                lexed,
                at + 1,
                out.push(PieceView { data: TokenView::Str(seq![text]), origin: call.origin }),
            )
            &&& text.len() >= 2
            &&& text[0] == '"'
            &&& text.last() == '"'
        }),
{
    only_spaces_are_skipped(call.body, index + 1);
    let next = past_spaces(call.body, index + 1);
    if next < at {
        assert(is_space(call.body[next as int]));
    }
    assert(next == at);
    a_parameter_stands_for_its_argument(call, i);
    reveal_strlit("\"");
}

/// A text that was escaped, read back: a backslash is dropped and the
/// character after it is taken as it is.
pub open spec fn read_back(text: Seq<char>) -> Seq<char>
    decreases text.len(),
{
    if text.len() == 0 {
        Seq::empty()
    } else if text[0] == '\\' && text.len() > 1 {
        seq![text[1]] + read_back(text.skip(2))
    } else {
        seq![text[0]] + read_back(text.skip(1))
    }
}

/// An escaped text reads back as the text.
pub proof fn an_escaped_text_reads_back(text: Seq<char>, from: nat)
    requires
        from <= text.len(),
    ensures
        read_back(escaped(text, from)) == text.skip(from as int),
    decreases text.len() - from,
{
    if from < text.len() {
        an_escaped_text_reads_back(text, from + 1);
        let rest = escaped(text, from + 1);
        let character = text[from as int];
        if character == '\\' || character == '"' {
            assert(escaped(text, from).skip(2) =~= rest);
        } else {
            assert(escaped(text, from).skip(1) =~= rest);
        }
        assert(seq![character] + text.skip(from as int + 1) =~= text.skip(from as int));
    } else {
        assert(text.skip(from as int) =~= Seq::empty());
    }
}

proof fn end_white_goes(text: Seq<char>) -> (end: int)
    ensures
        0 <= end <= text.len(),
        trimmed_end(text) == text.take(end),
        forall|k: int| end <= k < text.len() ==> white(#[trigger] text[k]),
        end > 0 ==> !white(text[end - 1]),
    decreases text.len(),
{
    if text.len() > 0 && white(text.last()) {
        let end = end_white_goes(text.drop_last());
        assert(text.drop_last().take(end) =~= text.take(end));
        assert forall|k: int| end <= k < text.len() implies white(#[trigger] text[k]) by {
            if k < text.len() - 1 {
                assert(text.drop_last()[k] == text[k]);
            }
        }
        end
    } else {
        assert(text.take(text.len() as int) =~= text);
        text.len() as int
    }
}

proof fn start_white_goes(text: Seq<char>) -> (start: int)
    ensures
        0 <= start <= text.len(),
        trimmed_start(text) == text.skip(start),
        forall|k: int| 0 <= k < start ==> white(#[trigger] text[k]),
        start < text.len() ==> !white(text[start]),
    decreases text.len(),
{
    if text.len() > 0 && white(text[0]) {
        let start = start_white_goes(text.drop_first());
        assert(text.drop_first().skip(start) =~= text.skip(start + 1));
        assert forall|k: int| 0 <= k < start + 1 implies white(#[trigger] text[k]) by {
            if k > 0 {
                assert(text.drop_first()[k - 1] == text[k]);
            }
        }
        start + 1
    } else {
        assert(text.skip(0) =~= text);
        0
    }
}

/// A trimmed text is what stands between the white space at its two ends.
pub proof fn a_trimmed_text_loses_the_space_around_it(text: Seq<char>) -> (ends: (int, int))
    ensures
        0 <= ends.0 <= ends.1 <= text.len(),
        trimmed(text) == text.subrange(ends.0, ends.1),
        forall|k: int|
            0 <= k < ends.0 || ends.1 <= k < text.len() ==> white(#[trigger] text[k]),
        ends.0 < ends.1 ==> !white(text[ends.0]) && !white(text[ends.1 - 1]),
{
    let start = start_white_goes(text);
    let kept = text.skip(start);
    let end = end_white_goes(kept);
    assert(kept.take(end) =~= text.subrange(start, start + end));
    assert forall|k: int| 0 <= k < start || start + end <= k < text.len() implies white(
        #[trigger] text[k],
    ) by {
        if k >= start + end {
            assert(kept[k - start] == text[k]);
        }
    }
    if end > 0 {
        assert(kept[end - 1] == text[start + end - 1]);
        assert(kept[0] == text[start]);
    }
    (start, start + end)
}

/// Two hashes between two tokens make them the one token that their texts are
/// together, in the place of both.
pub proof fn two_hashes_paste_two_tokens(
    call: CallView,
    lexed: Seq<LexedView>,
    index: nat,
    first: nat,
    second: nat,
    at: nat,
    left_piece: PieceView,
    right_piece: PieceView,
    token: TokenView,
    out: Seq<PieceView>,
)
    requires
        index < first < second < at < call.body.len(),
        call.body[index as int] is Id,
        call.body[first as int] is Hash,
        call.body[second as int] is Hash,
        !is_space(call.body[at as int]),
        forall|k: int|
            index < k < at && k != first && k != second ==> is_space(#[trigger] call.body[k]),
        operand(call, call.body[index as int]) == seq![left_piece],
        operand(call, call.body[at as int]) == seq![right_piece],
        !is_space(left_piece.data),
        spelling(left_piece.data) is Some,
        spelling(right_piece.data) is Some,
        lexed_as(lexed, spelling(left_piece.data)->0 + spelling(right_piece.data)->0, 0) == Some(
            Some(token),
        ),
        !hash_at(call.body, past_spaces(call.body, at + 1)),
    ensures
        substituted(call, lexed, index, out) == substituted(
            call,
            lexed,
            at + 1,
            out.push(PieceView { data: token, origin: call.origin }),
        ),
{
    let body = call.body;
    only_spaces_are_skipped(body, index + 1);
    only_spaces_are_skipped(body, first + 1);
    only_spaces_are_skipped(body, second + 1);
    let a = past_spaces(body, index + 1);
    if a < first {
        assert(is_space(body[a as int]));
    }
    assert(a == first);
    let b = past_spaces(body, first + 1);
    if b < second {
        assert(is_space(body[b as int]));
    }
    assert(b == second);
    let c = past_spaces(body, second + 1);
    if c < at {
        assert(is_space(body[c as int]));
    }
    assert(c == at);
    let kept = out + seq![left_piece];
    assert(kept.last() == left_piece);
    assert(without_end_spaces(kept) == kept);
    assert(substituted(call, lexed, index, out) == substituted(call, lexed, first, kept));
    let made = PieceView { data: token, origin: call.origin };
    assert(kept.drop_last().push(made) + seq![right_piece].drop_first() =~= out.push(made));
}

proof fn unnamed_items_stay(
    knowledge: Knowledge,
    items: Seq<ItemView>,
    out: Seq<ItemView>,
    nesting: nat,
)
    requires
        forall|k: int|
            0 <= k < items.len() ==> (#[trigger] items[k] matches Ok(token) && !names_a_macro(
                knowledge,
                token.data,
            )),
    ensures
        rescanned(knowledge, items, out, nesting) == out + items,
    decreases items.len(),
{
    if items.len() > 0 {
        let rest = items.drop_first();
        let token = items[0]->Ok_0;
        let one = Streams { incoming: seq![items[0]], inner: rest };
        assert(replacement_of(knowledge, Seq::empty(), items[0]) is None);
        let none = Streams { incoming: one.incoming.drop_first(), inner: rest };
        assert(none.incoming =~= Seq::empty());
        reveal_with_fuel(replaced_spec, 3);
        let replaced = replaced_spec(
            knowledge,
            one,
            Seq::empty(),
            Seq::empty(),
            token.location,
            nesting,
        );
        assert(replaced.items =~= seq![items[0]]);
        assert(replaced.streams.inner =~= rest);
        assert forall|k: int| 0 <= k < rest.len() implies (#[trigger] rest[k] matches Ok(token)
            && !names_a_macro(knowledge, token.data)) by {
            assert(rest[k] == items[k + 1]);
        }
        unnamed_items_stay(knowledge, rest, out + seq![items[0]], nesting);
        assert((out + seq![items[0]]) + rest =~= out + items);
    } else {
        assert(out + items =~= out);
    }
}

/// A call of a function macro whose list has no hashes becomes the list with
/// every parameter replaced by its argument, where no macro is named in that.
pub proof fn a_call_becomes_its_list(
    knowledge: Knowledge,
    name: ItemView,
    params: Seq<Seq<char>>,
    body: Seq<TokenView>,
    location: Location,
    streams: Streams,
    nesting: nat,
    call: CallView,
)
    requires
        nesting > 0,
        front(streams) matches Some(Ok(paren)) && paren.data is LeftParen && !paren.origin.contains(
            name_of(name),
        ) && call.origin == (origin_of(name) + paren.origin).push(name_of(name)),
        call.name == name_of(name),
        call.params == params,
        call.body == body,
        arguments_spec(advanced(streams), Seq::empty(), Seq::empty(), 1, Seq::empty()).arguments
            == Some(call.arguments),
        params.len() == call.arguments.len(),
        forall|k: int| 0 <= k < body.len() ==> !((#[trigger] body[k]) is Hash),
        forall|k: int|
            0 <= k < filled_in(call, 0).len() ==> !names_a_macro(
                knowledge,
                (#[trigger] filled_in(call, 0)[k]).data,
            ),
    ensures
        ({
            let read = arguments_spec(
                advanced(streams),
                Seq::empty(),
                Seq::empty(),
                1,
                Seq::empty(),
            );
            let replaced = function_spec(
                knowledge,
                name,
                params,
                body,
                location,
                streams,
                nesting,
            );
            &&& replaced.items == read.errors + pieces_at(filled_in(call, 0), location)
            &&& replaced.streams == read.streams
        }),
{
    let read = arguments_spec(advanced(streams), Seq::empty(), Seq::empty(), 1, Seq::empty());
    a_list_without_hashes_is_filled_in(call, knowledge.lexed, 0, Seq::empty());
    assert(Seq::<PieceView>::empty() + filled_in(call, 0) =~= filled_in(call, 0));
    let items = pieces_at(filled_in(call, 0), location);
    unnamed_items_stay(knowledge, items, Seq::empty(), (nesting - 1) as nat);
    assert(Seq::<ItemView>::empty() + items =~= items);
    assert(function_spec(knowledge, name, params, body, location, streams, nesting).items
        == call_spec(knowledge, call, location, read.errors, (nesting - 1) as nat));
}

/// A call with another number of arguments than the macro has parameters is
/// one error that says both numbers.
pub proof fn a_call_must_match_its_parameters(
    knowledge: Knowledge,
    call: CallView,
    location: Location,
    errors: Seq<ItemView>,
    nesting: nat,
)
    requires
        call.params.len() != call.arguments.len(),
        call.params.len() > 0 || call.arguments.len() != 1 || call.arguments[0].len() > 0,
    ensures
        call_spec(knowledge, call, location, errors, nesting) == seq![
            Err::<LocatableView, FailureView>(
                FailureView {
                    location,
                    error: CppErrorView::TooFewArguments(
                        call.params.len() as usize,
                        call.arguments.len() as usize,
                    ),
                },
            ),
        ],
{
}

} // verus!
