//! Streams of tokens with their locations and origins.

use crate::error::Location;
use crate::replace::token::{texts_view, Token, TokenView};
use vstd::prelude::*;

verus! {

/// A token, where it stands, and the macros that it came out of.
#[derive(Debug, PartialEq)]
pub struct Locatable {
    pub data: Token,
    pub location: Location,
    /// The macros whose replacement lists this token came out of; none for a
    /// token of the source.
    pub origin: Vec<String>,
}

/// What a [`Locatable`] is.
pub struct LocatableView {
    pub data: TokenView,
    pub location: Location,
    pub origin: Seq<Seq<char>>,
}

impl View for Locatable {
    type V = LocatableView;

    open spec fn view(&self) -> LocatableView {
        LocatableView {
            data: self.data@,
            location: self.location,
            origin: texts_view(self.origin@),
        }
    }
}

/// What can be wrong with a token or a macro call.
#[derive(Debug, PartialEq)]
pub enum CppError {
    /// A function macro was called with the wrong number of arguments: how
    /// many it takes, and how many there were.
    TooFewArguments(usize, usize),
    /// A `#` or `##` in the body of a function macro has no operand it can
    /// work on.
    HashMissingParameterContext { macro_name: String, body: String },
    /// What `##` makes of this text is not known yet.
    UnknownPaste(String),
    /// A stringified argument is longer than a token can hold.
    TextTooLong,
    /// The lexer's own diagnostic.
    Lex(String),
}

/// What a [`CppError`] says.
pub enum CppErrorView {
    TooFewArguments(usize, usize),
    HashMissingParameterContext { macro_name: Seq<char>, body: Seq<char> },
    UnknownPaste(Seq<char>),
    TextTooLong,
    Lex(Seq<char>),
}

impl View for CppError {
    type V = CppErrorView;

    open spec fn view(&self) -> CppErrorView {
        match *self {
            CppError::TooFewArguments(expected, found) => CppErrorView::TooFewArguments(
                expected,
                found,
            ),
            CppError::HashMissingParameterContext { macro_name, body } =>
                CppErrorView::HashMissingParameterContext {
                macro_name: macro_name@,
                body: body@,
            },
            CppError::UnknownPaste(text) => CppErrorView::UnknownPaste(text@),
            CppError::TextTooLong => CppErrorView::TextTooLong,
            CppError::Lex(message) => CppErrorView::Lex(message@),
        }
    }
}

/// An error in place of a token.
#[derive(Debug, PartialEq)]
pub struct Failure {
    pub location: Location,
    pub error: CppError,
}

/// What a [`Failure`] says.
pub struct FailureView {
    pub location: Location,
    pub error: CppErrorView,
}

impl View for Failure {
    type V = FailureView;

    open spec fn view(&self) -> FailureView {
        FailureView { location: self.location, error: self.error@ }
    }
}

/// One item of a token stream.
pub type Item = Result<Locatable, Failure>;

/// What an [`Item`] is.
pub type ItemView = Result<LocatableView, FailureView>;

/// What an [`Item`] is.
pub open spec fn item_view(item: Item) -> ItemView {
    match item {
        Ok(token) => Ok(token@),
        Err(failure) => Err(failure@),
    }
}

/// What a list of items is.
pub open spec fn items_view(items: Seq<Item>) -> Seq<ItemView> {
    Seq::new(items.len(), |i: int| item_view(items[i]))
}

/// A stream of tokens which allows you to look at the next one.
///
/// Macro replacement needs this to tell whether the name of a function macro
/// is followed by arguments.
pub trait Peekable {
    /// The items that are still to come.
    spec fn remaining(&self) -> Seq<ItemView>;

    /// Takes the next item.
    fn next(&mut self) -> (result: Option<Item>)
        ensures
            (match result {
                None => old(self).remaining().len() == 0 && final(self).remaining() == old(
                    self,
                ).remaining(),
                Some(item) => old(self).remaining().len() > 0 && item_view(item) == old(
                    self,
                ).remaining()[0] && final(self).remaining() == old(
                    self,
                ).remaining().drop_first(),
            }),
    ;

    /// Looks at the next item.
    fn peek(&mut self) -> (result: Option<&Item>)
        ensures
            final(self).remaining() == old(self).remaining(),
            (match result {
                None => old(self).remaining().len() == 0,
                Some(item) => old(self).remaining().len() > 0 && item_view(*item) == old(
                    self,
                ).remaining()[0],
            }),
    ;
}

/// A list of items read from the front.
pub struct TokenStream {
    items: Vec<Item>,
    position: usize,
}

impl TokenStream {
    /// What is still to come.
    closed spec fn rest(&self) -> Seq<ItemView> {
        items_view(self.items@).skip(self.position as int)
    }

    /// Whether the position lies in the list.
    #[verifier::type_invariant]
    closed spec fn placed(&self) -> bool {
        self.position <= self.items@.len()
    }

    /// A stream of the items.
    pub fn new(items: Vec<Item>) -> (result: TokenStream)
        ensures
            result.remaining() == items_view(items@),
    {
        let result = TokenStream { items, position: 0 };
        assert(result.rest() =~= items_view(items@));
        result
    }
}

impl Peekable for TokenStream {
    closed spec fn remaining(&self) -> Seq<ItemView> {
        self.rest()
    }

    fn next(&mut self) -> (result: Option<Item>) {
        proof {
            use_type_invariant(&*self);
        }
        if self.position >= self.items.len() {
            return None;
        }
        let item = copy_item(&self.items[self.position]);
        let ghost before = self.rest();
        self.position = self.position + 1;
        assert(self.rest() =~= before.drop_first());
        Some(item)
    }

    fn peek(&mut self) -> (result: Option<&Item>) {
        proof {
            use_type_invariant(&*self);
        }
        if self.position >= self.items.len() {
            None
        } else {
            Some(&self.items[self.position])
        }
    }
}

/// A copy of a list of names.
pub fn copy_names(names: &Vec<String>) -> (result: Vec<String>)
    ensures
        texts_view(result@) == texts_view(names@),
{
    let mut copy: Vec<String> = Vec::new();
    let mut index: usize = 0;
    while index < names.len()
        invariant
            index <= names@.len(),
            copy@.len() == index,
            forall|i: int| 0 <= i < index ==> (#[trigger] copy@[i])@ == names@[i]@,
        decreases names@.len() - index,
    {
        copy.push(names[index].clone());
        index += 1;
    }
    assert(texts_view(copy@) =~= texts_view(names@));
    copy
}

impl Locatable {
    /// A copy of this token.
    pub fn duplicate(&self) -> (result: Locatable)
        ensures
            result@ == self@,
    {
        Locatable {
            data: self.data.duplicate(),
            location: self.location,
            origin: copy_names(&self.origin),
        }
    }
}

impl Failure {
    /// A copy of this error.
    pub fn duplicate(&self) -> (result: Failure)
        ensures
            result@ == self@,
    {
        let error = match &self.error {
            CppError::TooFewArguments(expected, found) => CppError::TooFewArguments(
                *expected,
                *found,
            ),
            CppError::HashMissingParameterContext { macro_name, body } =>
                CppError::HashMissingParameterContext {
                macro_name: macro_name.clone(),
                body: body.clone(),
            },
            CppError::UnknownPaste(text) => CppError::UnknownPaste(text.clone()),
            CppError::TextTooLong => CppError::TextTooLong,
            CppError::Lex(message) => CppError::Lex(message.clone()),
        };
        Failure { location: self.location, error }
    }
}

/// A copy of an item.
pub fn copy_item(item: &Item) -> (result: Item)
    ensures
        item_view(result) == item_view(*item),
{
    match item {
        Ok(token) => Ok(token.duplicate()),
        Err(failure) => Err(failure.duplicate()),
    }
}

} // verus!
