//! The selection: the paths a user has picked, each once, in the order in
//! which they were picked.

use crate::naming::texts;
use vstd::prelude::*;

verus! {

/// An ordered collection of selected paths that holds no path twice. Two
/// paths are the same when their texts are equal, character by character.
pub struct PathSet {
    paths: Vec<String>,
}

/// `selection` after `path` has been offered to it: appended if it is new,
/// unchanged if it is already there.
pub open spec fn with_added(selection: Seq<Seq<char>>, path: Seq<char>) -> Seq<Seq<char>> {
    if selection.contains(path) {
        selection
    } else {
        selection.push(path)
    }
}

/// `selection` after each of `offered` has been offered to it in turn.
pub open spec fn with_all_added(selection: Seq<Seq<char>>, offered: Seq<Seq<char>>) -> Seq<
    Seq<char>,
>
    decreases offered.len(),
{
    if offered.len() == 0 {
        selection
    } else {
        with_added(with_all_added(selection, offered.drop_last()), offered.last())
    }
}

impl View for PathSet {
    type V = Seq<Seq<char>>;

    /// The selected paths in insertion order.
    closed spec fn view(&self) -> Seq<Seq<char>> {
        texts(self.paths@)
    }
}

impl PathSet {
    /// What holds of every selection: no path occurs twice.
    pub open spec fn wf(&self) -> bool {
        self@.no_duplicates()
    }

    /// An empty selection.
    pub fn new() -> (set: PathSet)
        ensures
            set.wf(),
            set@ == Seq::<Seq<char>>::empty(),
    {
        let set = PathSet { paths: Vec::new() };
        assert(set@ == Seq::<Seq<char>>::empty());
        set
    }

    /// Tells whether `path` has been selected.
    pub fn contains(&self, path: &str) -> (found: bool)
        ensures
            found == self@.contains(path@),
    {
        let wanted = path.to_owned();
        let mut i: usize = 0;
        while i < self.paths.len()
            invariant
                i <= self.paths.len(),
                wanted@ == path@,
                forall|j: int| 0 <= j < i ==> self@[j] != path@,
            decreases self.paths.len() - i,
        {
            if self.paths[i] == wanted {
                assert(self@[i as int] == path@);
                return true;
            }
            i = i + 1;
        }
        false
    }

    /// Selects `path` unless it is selected already, and tells whether it was
    /// inserted. A duplicate changes nothing and is no error.
    pub fn add(&mut self, path: &str) -> (inserted: bool)
        requires
            old(self).wf(),
        ensures
            final(self).wf(),
            inserted == !old(self)@.contains(path@),
            final(self)@ == with_added(old(self)@, path@),
    {
        if self.contains(path) {
            false
        } else {
            let ghost before = self@;
            self.paths.push(path.to_owned());
            assert(self@ == before.push(path@));
            true
        }
    }

    /// The number of selected paths.
    pub fn len(&self) -> (n: usize)
        ensures
            n == self@.len(),
    {
        self.paths.len()
    }

    /// Tells whether nothing is selected.
    pub fn is_empty(&self) -> (empty: bool)
        ensures
            empty == (self@.len() == 0),
    {
        self.paths.len() == 0
    }

    /// The selected paths in insertion order.
    pub fn list(&self) -> (paths: &Vec<String>)
        ensures
            texts(paths@) == self@,
    {
        &self.paths
    }
}

/// Offering paths to a selection never makes a path occur twice, and the
/// selection then holds exactly the paths it held or was offered.
pub proof fn lemma_with_all_added(selection: Seq<Seq<char>>, offered: Seq<Seq<char>>)
    requires
        selection.no_duplicates(),
    ensures
        with_all_added(selection, offered).no_duplicates(),
        with_all_added(selection, offered).to_set() == selection.to_set().union(offered.to_set()),
    decreases offered.len(),
{
    broadcast use vstd::seq_lib::group_seq_properties;

    if offered.len() == 0 {
        assert(offered.to_set() == Set::<Seq<char>>::empty());
        assert(selection.to_set().union(offered.to_set()) == selection.to_set());
    } else {
        let earlier = offered.drop_last();
        let path = offered.last();
        lemma_with_all_added(selection, earlier);
        let held = with_all_added(selection, earlier);
        assert(offered == earlier.push(path));
        assert(offered.to_set() == earlier.to_set().insert(path));
        if held.contains(path) {
            assert(held.to_set().contains(path));
            assert(held.to_set() == selection.to_set().union(offered.to_set()));
        } else {
            assert(held.push(path).to_set() == held.to_set().insert(path));
            assert(held.push(path).to_set() == selection.to_set().union(offered.to_set()));
        }
    }
}

/// However often and in whatever order paths are offered to an empty
/// selection, it ends up holding as many paths as there are distinct paths
/// among those offered.
pub proof fn selection_counts_distinct_paths(offered: Seq<Seq<char>>)
    ensures
        with_all_added(Seq::empty(), offered).no_duplicates(),
        with_all_added(Seq::empty(), offered).to_set() == offered.to_set(),
        with_all_added(Seq::empty(), offered).len() == offered.to_set().len(),
{
    let nothing = Seq::<Seq<char>>::empty();
    lemma_with_all_added(nothing, offered);
    assert(nothing.to_set() == Set::<Seq<char>>::empty());
    assert(nothing.to_set().union(offered.to_set()) == offered.to_set());
    with_all_added(nothing, offered).unique_seq_to_set();
}

} // verus!
