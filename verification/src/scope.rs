//! The variables of a run, in the order they were declared.
use vstd::prelude::*;

use crate::text::same_text;
use crate::value::{unit, with_mode, AccessMode, Datum, Dynamic};

verus! {

/// A variable: its name and its value.
#[derive(Debug)]
pub struct Entry {
    pub name: String,
    pub value: Dynamic,
}

impl Entry {
    pub open spec fn view(self) -> (Seq<char>, Datum) {
        (self.name@, self.value@)
    }
}

/// The model of a scope: its variables, oldest first.
pub type Names = Seq<(Seq<char>, Datum)>;

pub open spec fn entry_views(entries: Seq<Entry>) -> Names {
    Seq::new(entries.len(), |i: int| entries[i]@)
}

/// The variables of a run.
#[derive(Debug)]
pub struct Scope {
    entries: Vec<Entry>,
}

/// The newest variable of this name is the one at `i`.
pub open spec fn newest_at(scope: Names, name: Seq<char>, i: int) -> bool {
    &&& 0 <= i < scope.len()
    &&& scope[i].0 == name
    &&& forall|j: int| i < j < scope.len() ==> (#[trigger] scope[j]).0 != name
}

/// Where the newest variable of a name is, if there is one.
pub open spec fn found(scope: Names, name: Seq<char>) -> Option<int> {
    if exists|i: int| newest_at(scope, name, i) {
        Some(choose|i: int| newest_at(scope, name, i))
    } else {
        None
    }
}

/// The scope with a variable's value replaced.
pub open spec fn stored(scope: Names, i: int, value: Datum) -> Names {
    scope.update(i, (scope[i].0, value))
}

/// The scope cut back to its oldest `len` variables.
pub open spec fn rewound(scope: Names, len: int) -> Names {
    if len < scope.len() {
        scope.subrange(0, len)
    } else {
        scope
    }
}

/// The scope with a variable declared.
pub open spec fn declared(scope: Names, name: Seq<char>, mode: AccessMode, value: Datum) -> Names {
    scope.push((name, with_mode(value, mode)))
}

pub proof fn found_is(scope: Names, name: Seq<char>, i: int)
    requires
        newest_at(scope, name, i),
    ensures
        found(scope, name) == Some(i),
{
    let k = choose|k: int| newest_at(scope, name, k);
    assert(newest_at(scope, name, k));
    if k < i {
        assert(scope[i].0 != name);
    } else if i < k {
        assert(scope[k].0 != name);
    }
}

impl Scope {
    pub closed spec fn view(self) -> Names {
        entry_views(self.entries@)
    }

    /// No variables.
    pub fn new() -> (scope: Scope)
        ensures
            scope@ == Names::empty(),
    {
        let scope = Scope { entries: Vec::new() };
        assert(scope@ =~= Names::empty());
        scope
    }

    /// A scope of these variables.
    pub fn of(entries: Vec<Entry>) -> (scope: Scope)
        ensures
            scope@ == entry_views(entries@),
    {
        Scope { entries }
    }

    /// How many variables there are.
    pub fn len(&self) -> (n: usize)
        ensures
            n == self@.len(),
    {
        self.entries.len()
    }

    /// Whether there are none.
    pub fn is_empty(&self) -> (r: bool)
        ensures
            r == (self@.len() == 0),
    {
        self.entries.len() == 0
    }

    /// Declare a variable with an access mode.
    pub fn push_entry(&mut self, name: String, mode: AccessMode, value: Dynamic)
        ensures
            final(self)@ == declared(old(self)@, name@, mode, value@),
    {
        let mut value = value;
        value.set_access_mode(mode);
        self.entries.push(Entry { name, value });
        assert(self@ =~= old(self)@.push((name@, value@)));
    }

    /// Declare a variable with the access mode of its value.
    pub fn push_dynamic(&mut self, name: &str, value: Dynamic)
        ensures
            final(self)@ == declared(old(self)@, name@, value@.mode, value@),
    {
        let mode = value.mode;
        self.push_entry(name.to_owned(), mode, value);
    }

    /// Declare a constant.
    pub fn push_constant_dynamic(&mut self, name: &str, value: Dynamic)
        ensures
            final(self)@ == declared(old(self)@, name@, AccessMode::ReadOnly, value@),
    {
        self.push_entry(name.to_owned(), AccessMode::ReadOnly, value);
    }

    /// Drop the newest variables, down to `len` of them.
    pub fn rewind(&mut self, len: usize)
        ensures
            final(self)@ == rewound(old(self)@, len as int),
    {
        self.entries.truncate(len);
        assert(self@ =~= rewound(old(self)@, len as int));
    }

    /// Drop every variable.
    pub fn clear(&mut self)
        ensures
            final(self)@ == Names::empty(),
    {
        self.entries.clear();
        assert(self@ =~= Names::empty());
    }

    /// Drop `count` variables from `start` up, keeping what is newer.
    pub fn remove_range(&mut self, start: usize, count: usize)
        requires
            start + count <= old(self)@.len(),
        ensures
            final(self)@ == old(self)@.subrange(0, start as int) + old(self)@.subrange(
                start + count,
                old(self)@.len() as int,
            ),
    {
        let ghost before = self@;
        let mut i: usize = 0;
        assert(before.subrange(0, start as int) + before.subrange(start as int, before.len() as int)
            =~= before);
        while i < count
            invariant
                i <= count,
                start + count <= before.len(),
                self@ == before.subrange(0, start as int) + before.subrange(
                    start + i,
                    before.len() as int,
                ),
            decreases count - i,
        {
            let ghost was = self@;
            assert(was.len() == self.entries@.len());
            let _ = self.entries.remove(start);
            assert(self@ =~= was.remove(start as int));
            assert(self@ =~= before.subrange(0, start as int) + before.subrange(
                start + i + 1,
                before.len() as int,
            ));
            i = i + 1;
        }
    }

    /// The value of a variable.
    pub fn get_by_index(&self, i: usize) -> (value: &Dynamic)
        requires
            i < self@.len(),
        ensures
            value@ == self@[i as int].1,
    {
        &self.entries[i].value
    }

    /// The name of a variable.
    pub fn name_at(&self, i: usize) -> (name: &str)
        requires
            i < self@.len(),
        ensures
            name@ == self@[i as int].0,
    {
        self.entries[i].name.as_str()
    }

    /// Move a variable's value out, leaving unit behind.
    pub fn take(&mut self, i: usize) -> (value: Dynamic)
        requires
            i < old(self)@.len(),
        ensures
            value@ == old(self)@[i as int].1,
            final(self)@ == stored(old(self)@, i as int, unit()),
    {
        let value = self.entries[i].value.take();
        assert(self@ =~= stored(old(self)@, i as int, unit()));
        value
    }

    /// Replace a variable's value.
    pub fn put(&mut self, i: usize, value: Dynamic)
        requires
            i < old(self)@.len(),
        ensures
            final(self)@ == stored(old(self)@, i as int, value@),
    {
        self.entries[i].value = value;
        assert(self@ =~= stored(old(self)@, i as int, value@));
    }

    /// Find the newest variable of a name.
    pub fn search(&self, name: &str) -> (at: Option<usize>)
        ensures
            match at {
                Some(i) => i < self@.len() && found(self@, name@) == Some(i as int),
                None => found(self@, name@) is None,
            },
    {
        let mut i: usize = self.entries.len();
        while i > 0
            invariant
                i <= self@.len(),
                forall|j: int| i <= j < self@.len() ==> (#[trigger] self@[j]).0 != name@,
            decreases i,
        {
            i = i - 1;
            if same_text(self.entries[i].name.as_str(), name) {
                proof {
                    assert(self@[i as int].0 == name@);
                    found_is(self@, name@, i as int);
                }
                return Some(i);
            }
            assert(self@[i as int].0 != name@);
        }
        None
    }

    /// Whether a variable of this name exists.
    pub fn contains(&self, name: &str) -> (r: bool)
        ensures
            r == (found(self@, name@) is Some),
    {
        self.search(name).is_some()
    }
}

/// Putting back what was taken leaves the scope as it was.
pub proof fn taken_and_put_back(scope: Names, i: int, value: Datum)
    requires
        0 <= i < scope.len(),
    ensures
        stored(stored(scope, i, unit()), i, value) == stored(scope, i, value),
        stored(scope, i, scope[i].1) == scope,
{
    assert(stored(stored(scope, i, unit()), i, value) =~= stored(scope, i, value));
    assert(stored(scope, i, scope[i].1) =~= scope);
}

} // verus!
