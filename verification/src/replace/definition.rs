//! Macro definitions.

use crate::replace::token::{texts_view, tokens_view, Token, TokenView};
use crate::text::same_text;
use vstd::prelude::*;

verus! {

/// A macro definition.
#[derive(Debug, PartialEq)]
pub enum Definition {
    /// An object macro: `#define a b + 1`
    Object(Vec<Token>),
    /// A function macro: `#define f(a) a + 1`
    Function {
        /// The function parameters.
        ///
        /// In the example above, `a` is a function parameter.
        /// A macro may have 0 or more parameters.
        /// Variadic macros (`__VA_ARGS__`) are not yet implemented.
        ///
        /// Note that function macros may be called with an empty replacement list for any parameter.
        /// For example, `f()` is valid and expands to `+ 1`.
        /// Similarly, for `#define g(a, b) a + b`, `g(,)` is valid and expands to `+`.
        params: Vec<String>,
        /// The body for a function macro.
        ///
        /// The function body itself undergoes recursive macro replacement.
        body: Vec<Token>,
    },
}

/// What a [`Definition`] says.
pub enum DefinitionView {
    Object(Seq<TokenView>),
    Function { params: Seq<Seq<char>>, body: Seq<TokenView> },
}

impl View for Definition {
    type V = DefinitionView;

    open spec fn view(&self) -> DefinitionView {
        match *self {
            Definition::Object(body) => DefinitionView::Object(tokens_view(body@)),
            Definition::Function { params, body } => DefinitionView::Function {
                params: texts_view(params@),
                body: tokens_view(body@),
            },
        }
    }
}

/// A name and its definition.
pub struct Entry {
    pub name: String,
    pub definition: Definition,
}

/// What an [`Entry`] says.
pub struct EntryView {
    pub name: Seq<char>,
    pub definition: DefinitionView,
}

impl View for Entry {
    type V = EntryView;

    open spec fn view(&self) -> EntryView {
        EntryView { name: self.name@, definition: self.definition@ }
    }
}

/// What a list of entries says.
pub open spec fn entries_view(entries: Seq<Entry>) -> Seq<EntryView> {
    Seq::new(entries.len(), |i: int| entries[i]@)
}

/// Whether no name is defined twice.
pub open spec fn distinct_names(entries: Seq<EntryView>) -> bool {
    forall|i: int, j: int|
        0 <= i < j < entries.len() ==> (#[trigger] entries[i]).name != (
        #[trigger] entries[j]).name
}

/// The definition of a name among the entries from `from` on.
pub open spec fn definition_of(entries: Seq<EntryView>, name: Seq<char>, from: nat) -> Option<
    DefinitionView,
>
    decreases entries.len() - from,
{
    if from >= entries.len() {
        None
    } else if entries[from as int].name == name {
        Some(entries[from as int].definition)
    } else {
        definition_of(entries, name, from + 1)
    }
}

/// All known macro definitions.
///
/// Note that this is a simple table and not a scope, because the preprocessor
/// has no concept of scope other than `undef`.
pub struct Definitions {
    entries: Vec<Entry>,
}

impl View for Definitions {
    type V = Seq<EntryView>;

    closed spec fn view(&self) -> Seq<EntryView> {
        entries_view(self.entries@)
    }
}

impl Definitions {
    /// No name is defined twice.
    #[verifier::type_invariant]
    closed spec fn well_formed(&self) -> bool {
        distinct_names(entries_view(self.entries@))
    }

    /// No definitions.
    pub fn new() -> (result: Definitions)
        ensures
            result@ == Seq::<EntryView>::empty(),
    {
        let result = Definitions { entries: Vec::new() };
        assert(result@ =~= Seq::<EntryView>::empty());
        result
    }

    /// The definition of a name.
    pub fn get(&self, name: &str) -> (result: Option<&Definition>)
        ensures
            (match (definition_of(self@, name@, 0), result) {
                (Some(expected), Some(definition)) => definition@ == expected,
                (None, None) => true,
                _ => false,
            }),
    {
        let mut index: usize = 0;
        while index < self.entries.len()
            invariant
                index <= self.entries@.len(),
                definition_of(self@, name@, index as nat) == definition_of(self@, name@, 0),
            decreases self.entries@.len() - index,
        {
            let entry = &self.entries[index];
            assert(self@[index as int] == entry@);
            if same_text(entry.name.as_str(), name) {
                return Some(&entry.definition);
            }
            index += 1;
        }
        None
    }

    /// Forgets the definition of a name.
    pub fn remove(&mut self, name: &str)
        ensures
            definition_of(final(self)@, name@, 0) is None,
            forall|other: Seq<char>|
                other != name@ ==> #[trigger] definition_of(final(self)@, other, 0)
                    == definition_of(old(self)@, other, 0),
    {
        proof {
            use_type_invariant(&*self);
        }
        let ghost before = self@;
        let mut index: usize = 0;
        while index < self.entries.len()
            invariant
                index <= self.entries@.len(),
                self@ == before,
                before == old(self)@,
                distinct_names(before),
                forall|j: int| 0 <= j < index ==> (#[trigger] before[j]).name != name@,
            decreases self.entries@.len() - index,
        {
            assert(self@[index as int] == self.entries@[index as int]@);
            if same_text(self.entries[index].name.as_str(), name) {
                let ghost list = self.entries@;
                let mut entries: Vec<Entry> = Vec::new();
                std::mem::swap(&mut entries, &mut self.entries);
                let _ = entries.remove(index);
                assert(entries_view(entries@) =~= before.remove(index as int));
                proof {
                    removal_keeps_the_rest(before, index as int, name@);
                }
                self.entries = entries;
                return;
            }
            index += 1;
        }
        proof {
            undefined_where_not_listed(before, name@, 0);
        }
    }

    /// Defines a name, in place of what it meant before.
    pub fn insert(&mut self, name: String, definition: Definition)
        ensures
            definition_of(final(self)@, name@, 0) == Some(definition@),
            forall|other: Seq<char>|
                other != name@ ==> #[trigger] definition_of(final(self)@, other, 0)
                    == definition_of(old(self)@, other, 0),
    {
        self.remove(name.as_str());
        proof {
            use_type_invariant(&*self);
        }
        let ghost before = self@;
        let entry = Entry { name, definition };
        proof {
            addition_keeps_the_rest(before, entry@);
        }
        let mut entries: Vec<Entry> = Vec::new();
        std::mem::swap(&mut entries, &mut self.entries);
        entries.push(entry);
        assert(entries_view(entries@) =~= before.push(entry@));
        self.entries = entries;
    }
}

proof fn undefined_where_not_listed(entries: Seq<EntryView>, name: Seq<char>, from: nat)
    requires
        forall|j: int| from <= j < entries.len() ==> (#[trigger] entries[j]).name != name,
    ensures
        definition_of(entries, name, from) is None,
    decreases entries.len() - from,
{
    if from < entries.len() {
        undefined_where_not_listed(entries, name, from + 1);
    }
}

proof fn listed_where_defined(entries: Seq<EntryView>, name: Seq<char>, from: nat)
    ensures
        definition_of(entries, name, from) is None ==> forall|j: int|
            from <= j < entries.len() ==> (#[trigger] entries[j]).name != name,
    decreases entries.len() - from,
{
    if from < entries.len() && entries[from as int].name != name {
        listed_where_defined(entries, name, from + 1);
    }
}

proof fn removal_shifts(entries: Seq<EntryView>, index: int, name: Seq<char>, from: nat)
    requires
        0 <= index < entries.len(),
        entries[index].name != name,
    ensures
        from <= index ==> definition_of(entries.remove(index), name, from) == definition_of(
            entries,
            name,
            from,
        ),
        from > index ==> definition_of(entries.remove(index), name, (from - 1) as nat)
            == definition_of(entries, name, from),
    decreases entries.len() - from,
{
    let shorter = entries.remove(index);
    if from < entries.len() {
        removal_shifts(entries, index, name, from + 1);
        if from < index {
            assert(shorter[from as int] == entries[from as int]);
        } else if from > index {
            assert(shorter[from - 1] == entries[from as int]);
        }
    }
}

proof fn removal_keeps_the_rest(entries: Seq<EntryView>, index: int, name: Seq<char>)
    requires
        0 <= index < entries.len(),
        entries[index].name == name,
        distinct_names(entries),
    ensures
        distinct_names(entries.remove(index)),
        definition_of(entries.remove(index), name, 0) is None,
        forall|other: Seq<char>|
            other != name ==> #[trigger] definition_of(entries.remove(index), other, 0)
                == definition_of(entries, other, 0),
{
    let shorter = entries.remove(index);
    assert forall|i: int, j: int| 0 <= i < j < shorter.len() implies (
    #[trigger] shorter[i]).name != (#[trigger] shorter[j]).name by {
        let a = if i < index { i } else { i + 1 };
        let b = if j < index { j } else { j + 1 };
        assert(shorter[i] == entries[a]);
        assert(shorter[j] == entries[b]);
    }
    assert forall|j: int| 0 <= j < shorter.len() implies (#[trigger] shorter[j]).name != name by {
        let b = if j < index { j } else { j + 1 };
        assert(shorter[j] == entries[b]);
        assert(entries[index].name == name);
    }
    undefined_where_not_listed(shorter, name, 0);
    assert forall|other: Seq<char>| other != name implies #[trigger] definition_of(
        shorter,
        other,
        0,
    ) == definition_of(entries, other, 0) by {
        removal_shifts(entries, index, other, 0);
    }
}

proof fn addition_extends(entries: Seq<EntryView>, entry: EntryView, name: Seq<char>, from: nat)
    requires
        from <= entries.len(),
    ensures
        definition_of(entries.push(entry), name, from) == (match definition_of(
            entries,
            name,
            from,
        ) {
            Some(definition) => Some(definition),
            None => if entry.name == name {
                Some(entry.definition)
            } else {
                None
            },
        }),
    decreases entries.len() - from,
{
    reveal_with_fuel(definition_of, 2);
    if from < entries.len() {
        addition_extends(entries, entry, name, from + 1);
        assert(entries.push(entry)[from as int] == entries[from as int]);
    }
}

proof fn addition_keeps_the_rest(entries: Seq<EntryView>, entry: EntryView)
    requires
        distinct_names(entries),
        definition_of(entries, entry.name, 0) is None,
    ensures
        distinct_names(entries.push(entry)),
        definition_of(entries.push(entry), entry.name, 0) == Some(entry.definition),
        forall|other: Seq<char>|
            other != entry.name ==> #[trigger] definition_of(entries.push(entry), other, 0)
                == definition_of(entries, other, 0),
{
    listed_where_defined(entries, entry.name, 0);
    addition_extends(entries, entry, entry.name, 0);
    assert forall|other: Seq<char>| other != entry.name implies #[trigger] definition_of(
        entries.push(entry),
        other,
        0,
    ) == definition_of(entries, other, 0) by {
        addition_extends(entries, entry, other, 0);
    }
}

} // verus!
