//! The shared object table: the one owner of the objects that nodes refer to.
//!
//! An object enters the table once, under the name that the document declares
//! it with, and gets a key: its position in the table. Nodes hold keys. A name
//! leads to one key for as long as the table lives, and no name is declared
//! twice. An object without a name is an entry of its own each time and can
//! not be referred to.
//!
//! The table is a vector that is searched by name. Of a hash map with strings
//! for keys the verifier knows nothing, since it knows nothing of how a
//! string is hashed; of the vector it proves that a name leads to one key.

use vstd::prelude::*;
use crate::error::{AssemblyError, ErrorView};

verus! {

/// The characters of a name, where there is a name.
pub open spec fn name_text(name: Option<String>) -> Option<Seq<char>> {
    match name {
        Some(n) => Some(n@),
        None => None,
    }
}

/// The first position at which `names` holds `name`.
pub open spec fn first_position(names: Seq<Option<Seq<char>>>, name: Seq<char>) -> Option<usize>
    decreases names.len(),
{
    if names.len() == 0 {
        None
    } else {
        match first_position(names.drop_last(), name) {
            Some(key) => Some(key),
            None => if names.last() == Some(name) {
                Some((names.len() - 1) as usize)
            } else {
                None
            },
        }
    }
}

/// Whether no name stands at two positions.
pub open spec fn names_distinct(names: Seq<Option<Seq<char>>>) -> bool {
    forall|i: int, j: int|
        0 <= i < j < names.len() && names[i] is Some ==> #[trigger] names[i] != #[trigger] names[j]
}

/// What the first position of a name is: the name stands there, and nowhere
/// before; and where there is none, the name stands nowhere.
pub proof fn lemma_first_position(names: Seq<Option<Seq<char>>>, name: Seq<char>)
    requires
        names.len() <= usize::MAX,
    ensures
        match first_position(names, name) {
            Some(key) => {
                &&& key < names.len()
                &&& names[key as int] == Some(name)
                &&& forall|j: int| 0 <= j < key ==> names[j] != Some(name)
            },
            None => forall|j: int| 0 <= j < names.len() ==> names[j] != Some(name),
        },
    decreases names.len(),
{
    if names.len() > 0 {
        let front = names.drop_last();
        lemma_first_position(front, name);
        assert forall|j: int| 0 <= j < front.len() implies front[j] == names[j] by {}
    }
}

/// A position at which the name stands, and before which it does not, is
/// its first position.
pub proof fn lemma_first_position_is(names: Seq<Option<Seq<char>>>, name: Seq<char>, key: usize)
    requires
        names.len() <= usize::MAX,
        key < names.len(),
        names[key as int] == Some(name),
        forall|j: int| 0 <= j < key ==> names[j] != Some(name),
    ensures
        first_position(names, name) == Some(key),
{
    lemma_first_position(names, name);
}

/// The mathematical value of a [`SharedTable`]: the names and the objects,
/// position by position.
pub struct TableView<V> {
    pub names: Seq<Option<Seq<char>>>,
    pub objects: Seq<V>,
}

impl<V> TableView<V> {
    /// The table without objects.
    pub open spec fn empty() -> TableView<V> {
        TableView { names: Seq::empty(), objects: Seq::empty() }
    }

    /// The key under which the table holds an object of this name.
    pub open spec fn key_of(self, name: Seq<char>) -> Option<usize> {
        first_position(self.names, name)
    }

    /// The table after an object has entered it.
    pub open spec fn with(self, name: Option<Seq<char>>, object: V) -> TableView<V> {
        TableView { names: self.names.push(name), objects: self.objects.push(object) }
    }

    /// What the table answers to the declaration of an object: its key, or
    /// that its name is taken.
    pub open spec fn declared(self, name: Option<Seq<char>>) -> Result<usize, ErrorView> {
        if name is Some && self.key_of(name->Some_0) is Some {
            Err(ErrorView::DuplicateObjectName { name: name->Some_0 })
        } else {
            Ok(self.names.len() as usize)
        }
    }

    /// What the table answers to a reference: the key of the object of that
    /// name, or that there is none.
    pub open spec fn resolved(self, name: Seq<char>) -> Result<usize, ErrorView> {
        match self.key_of(name) {
            Some(key) => Ok(key),
            None => Err(ErrorView::UnresolvedReference { name }),
        }
    }

    /// The invariant of a table.
    pub open spec fn wf(self) -> bool {
        &&& self.names.len() == self.objects.len()
        &&& self.names.len() <= usize::MAX
        &&& names_distinct(self.names)
    }
}

/// The names of the entries of a table, position by position.
pub open spec fn entry_names<T>(entries: Seq<(Option<String>, T)>) -> Seq<Option<Seq<char>>> {
    entries.map_values(|e: (Option<String>, T)| name_text(e.0))
}

/// A table of shared objects of one type. No name stands in it twice.
#[derive(PartialEq, Eq, Debug)]
pub struct SharedTable<T> {
    entries: Vec<(Option<String>, T)>,
}

impl<T> SharedTable<T> {
    /// The invariant of the table: no name twice.
    #[verifier::type_invariant]
    pub closed spec fn distinct(&self) -> bool {
        names_distinct(entry_names(self.entries@))
    }
}

impl<T: View> View for SharedTable<T> {
    type V = TableView<T::V>;

    closed spec fn view(&self) -> TableView<T::V> {
        TableView {
            names: entry_names(self.entries@),
            objects: self.entries@.map_values(|e: (Option<String>, T)| e.1@),
        }
    }
}

impl<T: View> SharedTable<T> {
    /// A table whose names are distinct is well formed.
    pub proof fn lemma_wf(self)
        requires
            self.distinct(),
        ensures
            self@.wf(),
    {
        assert(self.entries@.len() == self.entries.len());
    }

    /// A table without objects.
    pub fn new() -> (table: SharedTable<T>)
        ensures
            table@ == TableView::<T::V>::empty(),
            table@.wf(),
    {
        let table = SharedTable { entries: Vec::new() };
        assert(table@.names =~= Seq::empty());
        assert(table@.objects =~= Seq::empty());
        table
    }

    /// The number of objects in the table.
    pub fn len(&self) -> (n: usize)
        ensures
            n == self@.objects.len(),
            self@.wf(),
    {
        proof {
            use_type_invariant(self);
            self.lemma_wf();
        }
        self.entries.len()
    }

    /// Resolves a reference: the key of the object that was declared under
    /// `name`.
    pub fn resolve(&self, name: &str) -> (r: Result<usize, AssemblyError>)
        ensures
            result_key(r) == self@.resolved(name@),
            r is Ok ==> r->Ok_0 < self@.objects.len(),
            self@.wf(),
    {
        proof {
            use_type_invariant(self);
            self.lemma_wf();
        }
        let mut i: usize = 0;
        while i < self.entries.len()
            invariant
                i <= self.entries.len(),
                self@.wf(),
                self@.names.len() == self.entries.len(),
                forall|j: int| 0 <= j < i ==> self@.names[j] != Some(name@),
            decreases self.entries.len() - i,
        {
            let found = match &self.entries[i].0 {
                Some(n) => crate::text::text_eq(n.as_str(), name),
                None => false,
            };
            if found {
                proof {
                    lemma_first_position_is(self@.names, name@, i);
                }
                return Ok(i);
            }
            i += 1;
        }
        proof {
            lemma_first_position(self@.names, name@);
        }
        Err(AssemblyError::UnresolvedReference { name: name.to_owned() })
    }

    /// Declares an object: it enters the table at the end, and its position
    /// is its key. A name that is taken is refused, and the table stays as it
    /// is.
    pub fn insert(&mut self, name: Option<String>, object: T) -> (r: Result<usize, AssemblyError>)
        ensures
            result_key(r) == old(self)@.declared(name_text(name)),
            r is Ok ==> final(self)@ == old(self)@.with(name_text(name), object@),
            r is Err ==> final(self)@ == old(self)@,
            old(self)@.wf(),
            final(self)@.wf(),
    {
        proof {
            use_type_invariant(&*self);
            self.lemma_wf();
        }
        if let Some(n) = &name {
            if let Ok(_) = self.resolve(n.as_str()) {
                return Err(AssemblyError::DuplicateObjectName { name: n.clone() });
            }
        }
        let ghost before = self@;
        let ghost old_entries = self.entries@;
        let mut entries: Vec<(Option<String>, T)> = Vec::new();
        core::mem::swap(&mut entries, &mut self.entries);
        let key = entries.len();
        entries.push((name, object));
        proof {
            let f = |e: (Option<String>, T)| name_text(e.0);
            let g = |e: (Option<String>, T)| e.1@;
            assert(entries@ == old_entries.push((name, object)));
            assert(entries@.map_values(f) =~= old_entries.map_values(f).push(name_text(name)));
            assert(entries@.map_values(g) =~= old_entries.map_values(g).push(object@));
            assert(entries@.len() == entries.len());
            lemma_with_wf(before, name_text(name), object@);
        }
        self.entries = entries;
        Ok(key)
    }

    /// The object under a key.
    pub fn get(&self, key: usize) -> (object: Option<&T>)
        ensures
            match object {
                Some(o) => key < self@.objects.len() && o@ == self@.objects[key as int],
                None => key >= self@.objects.len(),
            },
    {
        if key < self.entries.len() {
            Some(&self.entries[key].1)
        } else {
            None
        }
    }

    /// The object under a key of the table.
    pub(crate) fn object(&self, key: usize) -> (object: &T)
        requires
            key < self@.objects.len(),
        ensures
            object@ == self@.objects[key as int],
    {
        &self.entries[key].1
    }

    /// The name under which the object of a key was declared.
    pub fn name_of(&self, key: usize) -> (name: Option<&String>)
        ensures
            match name {
                Some(n) => key < self@.names.len() && self@.names[key as int] == Some(n@),
                None => key >= self@.names.len() || self@.names[key as int] is None,
            },
    {
        if key < self.entries.len() {
            self.entries[key].0.as_ref()
        } else {
            None
        }
    }
}

/// The value of an answer of a table.
pub open spec fn result_key(r: Result<usize, AssemblyError>) -> Result<usize, ErrorView> {
    match r {
        Ok(key) => Ok(key),
        Err(e) => Err(e@),
    }
}

/// Resolution is stable: a name that leads to a key leads to the same key
/// after any further object has entered the table.
pub proof fn lemma_resolution_stable<V>(
    table: TableView<V>,
    name: Seq<char>,
    later_name: Option<Seq<char>>,
    later: V,
)
    requires
        table.key_of(name) is Some,
    ensures
        table.with(later_name, later).key_of(name) == table.key_of(name),
        table.with(later_name, later).resolved(name) == table.resolved(name),
{
    assert(table.names.push(later_name).drop_last() =~= table.names);
}

/// Sharing: in a table, a name belongs to at most one entry, and every
/// reference to the name resolves to the key of that entry.
pub proof fn lemma_one_entry_per_name<V>(table: TableView<V>, name: Seq<char>, i: int, j: int)
    requires
        table.wf(),
        0 <= i < table.names.len(),
        0 <= j < table.names.len(),
        table.names[i] == Some(name),
        table.names[j] == Some(name),
    ensures
        i == j,
        table.resolved(name) == Ok::<usize, ErrorView>(i as usize),
{
    lemma_first_position(table.names, name);
}

/// A table stays well formed when it accepts an object.
pub proof fn lemma_with_wf<V>(table: TableView<V>, name: Option<Seq<char>>, object: V)
    requires
        table.wf(),
        table.names.len() < usize::MAX,
        table.declared(name) is Ok,
    ensures
        table.with(name, object).wf(),
{
    let after = table.with(name, object);
    if name is Some {
        lemma_first_position(table.names, name->Some_0);
    }
    assert(names_distinct(after.names)) by {
        assert forall|i: int, j: int|
            0 <= i < j < after.names.len() && after.names[i] is Some implies #[trigger] after.names[i]
            != #[trigger] after.names[j] by {
            if j < table.names.len() {
                assert(table.names[i] != table.names[j]);
            }
        }
    }
}

/// A key that a reference resolves to is the key of an entry of the table,
/// and the entry has the name of the reference.
pub proof fn lemma_resolved_in_table<V>(table: TableView<V>, name: Seq<char>)
    requires
        table.wf(),
        table.resolved(name) is Ok,
    ensures
        table.resolved(name)->Ok_0 < table.objects.len(),
        table.names[table.resolved(name)->Ok_0 as int] == Some(name),
{
    lemma_first_position(table.names, name);
}

/// A declaration that the table accepts is resolved to its key from then on.
pub proof fn lemma_declared_then_resolved<V>(table: TableView<V>, name: Seq<char>, object: V)
    requires
        table.wf(),
        table.names.len() < usize::MAX,
        table.declared(Some(name)) is Ok,
    ensures
        table.with(Some(name), object).wf(),
        table.with(Some(name), object).resolved(name) == table.declared(Some(name)),
{
    let after = table.with(Some(name), object);
    lemma_first_position(table.names, name);
    assert(after.names.drop_last() =~= table.names);
    assert(names_distinct(after.names)) by {
        assert forall|i: int, j: int|
            0 <= i < j < after.names.len() && after.names[i] is Some implies #[trigger] after.names[i]
            != #[trigger] after.names[j] by {
            if j < table.names.len() {
                assert(table.names[i] != table.names[j]);
            }
        }
    }
}

/// Whether a name leads to a key after an object has entered the table: it
/// did before, or the object entered under that name.
pub proof fn lemma_key_after<V>(
    table: TableView<V>,
    entered: Option<Seq<char>>,
    object: V,
    name: Seq<char>,
)
    ensures
        table.with(entered, object).key_of(name) is Some <==> table.key_of(name) is Some
            || entered == Some(name),
        table.key_of(name) is Some ==> table.with(entered, object).key_of(name) == table.key_of(
            name,
        ),
{
    assert(table.names.push(entered).drop_last() =~= table.names);
}

} // verus!
