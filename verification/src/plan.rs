//! The plan for one selected root: which files go into the archive, and
//! under which names.

use crate::naming::entry_name;
use crate::naming::name_for;
use crate::naming::texts;
use crate::naming::RootKind;
use crate::traversal::discover;
use crate::traversal::discovered;
use crate::traversal::probed_kind;
use crate::traversal::RootProbe;
use vstd::prelude::*;

verus! {

/// A file to archive: where to read it, and what to call it in the archive.
#[derive(Debug)]
pub struct PlannedEntry {
    /// The path of the file on disk.
    pub source: String,
    /// The name of its entry.
    pub name: String,
}

/// The texts of a planned entry.
pub struct Plan {
    /// The path of the file on disk.
    pub source: Seq<char>,
    /// The name of its entry.
    pub name: Seq<char>,
}

impl View for PlannedEntry {
    type V = Plan;

    open spec fn view(&self) -> Plan {
        Plan { source: self.source@, name: self.name@ }
    }
}

/// The plans behind a sequence of planned entries.
pub open spec fn plans(entries: Seq<PlannedEntry>) -> Seq<Plan> {
    Seq::new(entries.len(), |i: int| entries[i]@)
}

/// The plan for one discovered file, if it can be named.
pub open spec fn plan_of(root: Seq<char>, kind: RootKind, found: Seq<char>) -> Option<Plan> {
    match entry_name(root, kind, found) {
        Some(name) => Some(Plan { source: found, name }),
        None => None,
    }
}

/// The plans for the discovered files that can be named, in their order.
pub open spec fn named(root: Seq<char>, kind: RootKind, found: Seq<Seq<char>>) -> Seq<Plan> {
    found.filter_map(|path: Seq<char>| plan_of(root, kind, path))
}

/// The plan for `root`, given what was found there: one entry for each
/// discovered file that can be named, in discovery order. A root that is
/// missing contributes nothing.
pub open spec fn planned(root: Seq<char>, probe: RootProbe) -> Seq<Plan> {
    match probed_kind(probe) {
        None => Seq::empty(),
        Some(kind) => named(root, kind, discovered(root, probe)),
    }
}

/// Plans the entries for `root`, given what was found there.
pub fn plan_entries(root: &str, probe: &RootProbe) -> (entries: Vec<PlannedEntry>)
    ensures
        plans(entries@) == planned(root@, *probe),
{
    let mut entries: Vec<PlannedEntry> = Vec::new();
    let kind = match probe.kind() {
        Some(kind) => kind,
        None => {
            assert(plans(entries@) == Seq::<Plan>::empty());
            return entries;
        },
    };
    let files = discover(root, probe);
    let ghost found = texts(files@);
    let mut i: usize = 0;
    assert(found.take(0) == Seq::<Seq<char>>::empty());
    assert(plans(entries@) == named(root@, kind, found.take(0)));
    while i < files.len()
        invariant
            i <= files.len(),
            found == texts(files@),
            plans(entries@) == named(root@, kind, found.take(i as int)),
        decreases files.len() - i,
    {
        let ghost before = plans(entries@);
        assert(found.take(i + 1).drop_last() == found.take(i as int));
        assert(found.take(i + 1).last() == files@[i as int]@);
        match name_for(root, kind, files[i].as_str()) {
            Some(name) => {
                let entry = PlannedEntry { source: files[i].clone(), name };
                entries.push(entry);
                assert(plans(entries@) == before + seq![
                    Plan { source: files@[i as int]@, name: name@ },
                ]);
            },
            None => {},
        }
        i = i + 1;
    }
    assert(found.take(i as int) == found);
    entries
}

/// A plan never holds more entries than files were discovered, and each of
/// its entries reads one of them.
pub proof fn plan_reads_discovered_files(root: Seq<char>, probe: RootProbe)
    ensures
        planned(root, probe).len() <= discovered(root, probe).len(),
        forall|i: int|
            0 <= i < planned(root, probe).len() ==> discovered(root, probe).contains(
                (#[trigger] planned(root, probe)[i]).source,
            ),
{
    match probed_kind(probe) {
        None => {},
        Some(kind) => {
            lemma_named_reads(root, kind, discovered(root, probe));
        },
    }
}

proof fn lemma_named_reads(root: Seq<char>, kind: RootKind, found: Seq<Seq<char>>)
    ensures
        named(root, kind, found).len() <= found.len(),
        forall|i: int|
            0 <= i < named(root, kind, found).len() ==> found.contains(
                (#[trigger] named(root, kind, found)[i]).source,
            ),
    decreases found.len(),
{
    if found.len() > 0 {
        let earlier = found.drop_last();
        lemma_named_reads(root, kind, earlier);
        let all = named(root, kind, found);
        let some = named(root, kind, earlier);
        assert forall|i: int| 0 <= i < all.len() implies found.contains(
            (#[trigger] all[i]).source,
        ) by {
            if i < some.len() {
                assert(all[i] == some[i]);
                let k = choose|k: int| 0 <= k < earlier.len() && earlier[k] == some[i].source;
                assert(found[k] == some[i].source);
            } else {
                assert(found[found.len() - 1] == all[i].source);
            }
        }
    }
}

} // verus!
