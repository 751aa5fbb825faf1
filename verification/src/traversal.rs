//! Traversal: from what was found on disk at a selected root to the files
//! that are to be archived.
//!
//! Looking at the disk is not done here. The caller reports what it found as
//! a `RootProbe`; which of the reported items count as discovered files is
//! decided here.

use crate::naming::texts;
use crate::naming::RootKind;
use vstd::prelude::*;

verus! {

/// One item met while walking a directory tree, at any depth.
#[derive(Debug)]
pub enum WalkItem {
    /// A regular file, with its path.
    RegularFile(String),
    /// A directory, with its path; the walk reports what lies in it in items
    /// of their own.
    Directory(String),
    /// Something that is neither, with its path.
    Special(String),
    /// An item that could not be read.
    Unreadable,
}

/// What was found on disk at a selected root.
#[derive(Debug)]
pub enum RootProbe {
    /// Nothing is there.
    Missing,
    /// Something that is not a directory.
    SingleFile,
    /// A directory, with the items of the walk beneath it in walk order.
    Directory(Vec<WalkItem>),
}

/// The path of `item` if it is a regular file.
pub open spec fn file_path(item: WalkItem) -> Option<Seq<char>> {
    match item {
        WalkItem::RegularFile(path) => Some(path@),
        _ => None,
    }
}

/// The paths of the regular files among `items`, in their order.
pub open spec fn regular_files(items: Seq<WalkItem>) -> Seq<Seq<char>> {
    items.filter_map(|item: WalkItem| file_path(item))
}

/// The files to archive for `root`: none where nothing is there, the root
/// itself where it is a single file, and every regular file of the walk where
/// it is a directory.
pub open spec fn discovered(root: Seq<char>, probe: RootProbe) -> Seq<Seq<char>> {
    match probe {
        RootProbe::Missing => Seq::empty(),
        RootProbe::SingleFile => seq![root],
        RootProbe::Directory(items) => regular_files(items@),
    }
}

/// What kind of root the probe found, if any.
pub open spec fn probed_kind(probe: RootProbe) -> Option<RootKind> {
    match probe {
        RootProbe::Missing => None,
        RootProbe::SingleFile => Some(RootKind::SingleFile),
        RootProbe::Directory(_) => Some(RootKind::Directory),
    }
}

impl RootProbe {
    /// Tells what kind of root was found, or `None` where nothing was.
    pub fn kind(&self) -> (kind: Option<RootKind>)
        ensures
            kind == probed_kind(*self),
    {
        match self {
            RootProbe::Missing => None,
            RootProbe::SingleFile => Some(RootKind::SingleFile),
            RootProbe::Directory(_) => Some(RootKind::Directory),
        }
    }
}

/// Lists the files to archive for `root`, given what was found there.
///
/// Items that are not regular files, and items that could not be read, are
/// passed over one by one; they never end the listing.
pub fn discover(root: &str, probe: &RootProbe) -> (files: Vec<String>)
    ensures
        texts(files@) == discovered(root@, *probe),
{
    let mut files: Vec<String> = Vec::new();
    match probe {
        RootProbe::Missing => {
            assert(texts(files@) == Seq::<Seq<char>>::empty());
        },
        RootProbe::SingleFile => {
            files.push(root.to_owned());
            assert(texts(files@) == seq![root@]);
        },
        RootProbe::Directory(items) => {
            let mut i: usize = 0;
            assert(items@.take(0) == Seq::<WalkItem>::empty());
            assert(texts(files@) == regular_files(items@.take(0)));
            while i < items.len()
                invariant
                    i <= items.len(),
                    texts(files@) == regular_files(items@.take(i as int)),
                decreases items.len() - i,
            {
                let ghost before = texts(files@);
                assert(items@.take(i + 1).drop_last() == items@.take(i as int));
                assert(items@.take(i + 1).last() == items@[i as int]);
                match &items[i] {
                    WalkItem::RegularFile(path) => {
                        files.push(path.clone());
                        assert(texts(files@) == before + seq![path@]);
                    },
                    _ => {},
                }
                i = i + 1;
            }
            assert(items@.take(i as int) == items@);
        },
    }
    files
}

/// The walk yields exactly as many files as there are regular files among
/// its items, however many directories and other items stand between them
/// and however deep they lie.
pub proof fn discovery_counts_regular_files(root: Seq<char>, items: Vec<WalkItem>)
    ensures
        discovered(root, RootProbe::Directory(items)).len() == items@.filter(
            |item: WalkItem| item is RegularFile,
        ).len(),
{
    lemma_regular_files_len(items@);
}

proof fn lemma_regular_files_len(items: Seq<WalkItem>)
    ensures
        regular_files(items).len() == items.filter(|item: WalkItem| item is RegularFile).len(),
    decreases items.len(),
{
    reveal(Seq::filter);
    if items.len() > 0 {
        lemma_regular_files_len(items.drop_last());
    }
}

} // verus!
