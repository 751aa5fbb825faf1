//! Archive entry names: where a discovered file is stored inside the
//! container, given the selected root it was found under.
//!
//! Paths are read as text in which `/` separates segments. Empty segments
//! (a doubled or trailing `/`) carry no meaning and are dropped, so an entry
//! name is always relative and in one canonical spelling.

use vstd::prelude::*;
use vstd::std_specs::iter::IteratorSpec;
use vstd::string::StringExecFns;
use vstd::string::StrSliceExecFns;

verus! {

broadcast use vstd::string::group_string_axioms;

/// What a selected root turned out to be on disk.
#[derive(Clone, Copy, Debug, PartialEq, Eq, Structural)]
pub enum RootKind {
    /// Anything that is not a directory: it is archived as one file.
    SingleFile,
    /// A directory: the files beneath it are archived.
    Directory,
}

/// The texts behind a sequence of strings.
pub open spec fn texts(strings: Seq<String>) -> Seq<Seq<char>> {
    Seq::new(strings.len(), |i: int| strings[i]@)
}

/// The segments of `rest`, read left to right, where `current` holds the
/// characters of the segment that `rest` continues.
pub open spec fn segments_from(current: Seq<char>, rest: Seq<char>) -> Seq<Seq<char>>
    decreases rest.len(),
{
    if rest.len() == 0 {
        if current.len() == 0 {
            Seq::empty()
        } else {
            seq![current]
        }
    } else if rest[0] == '/' {
        if current.len() == 0 {
            segments_from(Seq::empty(), rest.skip(1))
        } else {
            seq![current] + segments_from(Seq::empty(), rest.skip(1))
        }
    } else {
        segments_from(current.push(rest[0]), rest.skip(1))
    }
}

/// The non-empty runs of characters between the `/` of `path`, in order.
pub open spec fn segments(path: Seq<char>) -> Seq<Seq<char>> {
    segments_from(Seq::empty(), path)
}

/// Whether `path` starts at the filesystem root.
pub open spec fn is_rooted(path: Seq<char>) -> bool {
    path.len() > 0 && path[0] == '/'
}

/// A segment as `segments` yields them: not empty, and free of `/`.
pub open spec fn is_segment(text: Seq<char>) -> bool {
    text.len() > 0 && forall|j: int| 0 <= j < text.len() ==> text[j] != '/'
}

/// The segments written out with one `/` between neighbours.
pub open spec fn joined(parts: Seq<Seq<char>>) -> Seq<char>
    decreases parts.len(),
{
    if parts.len() == 0 {
        Seq::empty()
    } else if parts.len() == 1 {
        parts[0]
    } else {
        joined(parts.drop_last()) + seq!['/'] + parts.last()
    }
}

/// The segments that names are taken relative to: those of the root's parent,
/// or of the root itself where it has no parent.
pub open spec fn anchor(root: Seq<char>) -> Seq<Seq<char>> {
    let parts = segments(root);
    if parts.len() > 0 {
        parts.drop_last()
    } else {
        parts
    }
}

/// Whether `path` lies at or beneath `root`.
pub open spec fn lies_under(root: Seq<char>, path: Seq<char>) -> bool {
    is_rooted(root) == is_rooted(path) && segments(root).is_prefix_of(segments(path))
}

/// The segments of the entry name of `discovered` under `root`.
///
/// A single file is stored under its base name. A file found in a directory
/// keeps its path from the directory's parent on, so that the directory's own
/// name leads the entry name. A path that does not lie beneath that parent
/// keeps all its segments.
pub open spec fn entry_segments(root: Seq<char>, kind: RootKind, discovered: Seq<char>) -> Seq<
    Seq<char>,
> {
    match kind {
        RootKind::SingleFile => {
            let parts = segments(root);
            if parts.len() > 0 {
                seq![parts.last()]
            } else {
                Seq::empty()
            }
        },
        RootKind::Directory => {
            let found = segments(discovered);
            if is_rooted(root) == is_rooted(discovered) && anchor(root).is_prefix_of(found) {
                found.skip(anchor(root).len() as int)
            } else {
                found
            }
        },
    }
}

/// The entry name of `discovered` under `root`, or `None` where no segment is
/// left to name it by.
pub open spec fn entry_name(root: Seq<char>, kind: RootKind, discovered: Seq<char>) -> Option<
    Seq<char>,
> {
    let parts = entry_segments(root, kind, discovered);
    if parts.len() == 0 {
        None
    } else {
        Some(joined(parts))
    }
}

/// The text of an optional string.
pub open spec fn option_text(value: Option<String>) -> Option<Seq<char>> {
    match value {
        Some(s) => Some(s@),
        None => None,
    }
}

/// `path` with `/` in place of every `separator`.
pub open spec fn with_forward_slashes(path: Seq<char>, separator: char) -> Seq<char> {
    path.map_values(
        |c: char|
            if c == separator {
                '/'
            } else {
                c
            },
    )
}

/// Rewrites a path of a host that separates segments by `separator` with `/`
/// in its place. Where the host's separator is `/` the path comes back as it
/// is.
pub fn to_forward_slashes(path: &str, separator: char) -> (text: String)
    ensures
        text@ == with_forward_slashes(path@, separator),
{
    let n = path.unicode_len();
    let mut it = path.chars();
    let mut text = String::new();
    let mut start: usize = 0;
    let mut i: usize = 0;
    assert(path@.skip(0) == path@);
    assert(text@ == with_forward_slashes(path@.take(0), separator));
    loop
        invariant
            n == path@.len(),
            start <= i <= n,
            it.remaining() == path@.skip(i as int),
            text@ == with_forward_slashes(path@.take(start as int), separator),
            forall|j: int| start <= j < i ==> path@[j] != separator,
        ensures
            i == n,
        decreases n - i,
    {
        let ghost rest = path@.skip(i as int);
        match it.next() {
            Some(c) => {
                assert(c == rest[0] && rest[0] == path@[i as int]);
                assert(rest.skip(1) == path@.skip(i + 1));
                if c == separator {
                    proof {
                        reveal_strlit("/");
                    }
                    text.append(path.substring_char(start, i));
                    text.append("/");
                    assert(text@ == with_forward_slashes(path@.take(i + 1), separator));
                    start = i + 1;
                }
                i = i + 1;
            },
            None => {
                break ;
            },
        }
    }
    text.append(path.substring_char(start, i));
    assert(path@.take(n as int) == path@);
    assert(text@ == with_forward_slashes(path@, separator));
    text
}

/// Splits `path` at every `/` and keeps the non-empty pieces.
pub fn split_segments(path: &str) -> (parts: Vec<String>)
    ensures
        texts(parts@) == segments(path@),
{
    let n = path.unicode_len();
    let mut it = path.chars();
    let mut parts: Vec<String> = Vec::new();
    let mut start: usize = 0;
    let mut i: usize = 0;
    assert(path@.skip(0) == path@);
    assert(path@.subrange(0, 0) == Seq::<char>::empty());
    assert(texts(parts@) + segments(path@) == segments(path@));
    loop
        invariant
            n == path@.len(),
            start <= i <= n,
            it.remaining() == path@.skip(i as int),
            segments(path@) == texts(parts@) + segments_from(
                path@.subrange(start as int, i as int),
                path@.skip(i as int),
            ),
        ensures
            i == n,
        decreases n - i,
    {
        let ghost before = texts(parts@);
        let ghost current = path@.subrange(start as int, i as int);
        let ghost rest = path@.skip(i as int);
        match it.next() {
            Some(c) => {
                assert(c == rest[0] && rest[0] == path@[i as int]);
                assert(rest.skip(1) == path@.skip(i + 1));
                if c == '/' {
                    if start < i {
                        let piece = path.substring_char(start, i);
                        parts.push(String::from_str(piece));
                        assert(texts(parts@) == before + seq![current]);
                    }
                    start = i + 1;
                    assert(path@.subrange(start as int, i + 1) == Seq::<char>::empty());
                } else {
                    assert(path@.subrange(start as int, i + 1) == current.push(rest[0]));
                }
                i = i + 1;
            },
            None => {
                break ;
            },
        }
    }
    assert(path@.skip(i as int).len() == 0);
    if start < i {
        let ghost before = texts(parts@);
        let piece = path.substring_char(start, i);
        parts.push(String::from_str(piece));
        assert(texts(parts@) == before + seq![path@.subrange(start as int, i as int)]);
    }
    parts
}

/// Tells whether `path` starts with `/`.
pub fn starts_at_root(path: &str) -> (rooted: bool)
    ensures
        rooted == is_rooted(path@),
{
    if path.is_empty() {
        false
    } else {
        path.get_char(0) == '/'
    }
}

/// Tells whether the first `count` strings of `base` open `found`.
fn opens_with(found: &Vec<String>, base: &Vec<String>, count: usize) -> (yes: bool)
    requires
        count <= base.len(),
    ensures
        yes == texts(base@).take(count as int).is_prefix_of(texts(found@)),
{
    let ghost wanted = texts(base@).take(count as int);
    if count > found.len() {
        return false;
    }
    let mut i: usize = 0;
    while i < count
        invariant
            i <= count <= base.len(),
            count <= found.len(),
            wanted == texts(base@).take(count as int),
            forall|j: int| 0 <= j < i ==> wanted[j] == texts(found@)[j],
        decreases count - i,
    {
        if found[i] != base[i] {
            assert(wanted[i as int] != texts(found@)[i as int]);
            assert(wanted != texts(found@).subrange(0, wanted.len() as int));
            return false;
        }
        i = i + 1;
    }
    assert(wanted == texts(found@).subrange(0, wanted.len() as int));
    true
}

/// Writes the strings of `parts` from index `from` on, with `/` between them.
fn join_from(parts: &Vec<String>, from: usize) -> (text: String)
    requires
        from <= parts.len(),
    ensures
        text@ == joined(texts(parts@).skip(from as int)),
{
    let ghost wanted = texts(parts@).skip(from as int);
    let mut text = String::new();
    let mut i: usize = from;
    assert(wanted.take(0) == Seq::<Seq<char>>::empty());
    while i < parts.len()
        invariant
            from <= i <= parts.len(),
            wanted == texts(parts@).skip(from as int),
            text@ == joined(wanted.take(i - from)),
        decreases parts.len() - i,
    {
        let ghost shorter = wanted.take(i - from);
        let ghost longer = wanted.take(i - from + 1);
        assert(longer.drop_last() == shorter);
        assert(longer.last() == parts@[i as int]@);
        if i > from {
            proof {
                reveal_strlit("/");
            }
            text.append("/");
            assert("/"@ == seq!['/']);
        }
        text.append(parts[i].as_str());
        i = i + 1;
    }
    assert(wanted.take(i - from) == wanted);
    text
}

/// Derives the name under which `discovered` is stored, given the selected
/// `root` it was found under and what that root is.
///
/// `None` means that no segment is left to name the entry by, as for a root
/// spelled `/` that is taken for a single file.
pub fn name_for(root: &str, kind: RootKind, discovered: &str) -> (name: Option<String>)
    ensures
        option_text(name) == entry_name(root@, kind, discovered@),
{
    let root_parts = split_segments(root);
    match kind {
        RootKind::SingleFile => {
            if root_parts.len() == 0 {
                None
            } else {
                let base = root_parts[root_parts.len() - 1].clone();
                assert(base@ == texts(root_parts@).last());
                Some(base)
            }
        },
        RootKind::Directory => {
            let found = split_segments(discovered);
            let anchor_len = if root_parts.len() > 0 {
                root_parts.len() - 1
            } else {
                0
            };
            assert(texts(root_parts@).take(anchor_len as int) == anchor(root@));
            let beneath = starts_at_root(root) == starts_at_root(discovered) && opens_with(
                &found,
                &root_parts,
                anchor_len,
            );
            let from = if beneath {
                anchor_len
            } else {
                0
            };
            assert(texts(found@).skip(0) == texts(found@));
            if from == found.len() {
                None
            } else {
                Some(join_from(&found, from))
            }
        },
    }
}

/// Every segment of a path is non-empty and free of `/`.
pub proof fn segments_are_proper(path: Seq<char>)
    ensures
        forall|i: int| 0 <= i < segments(path).len() ==> is_segment(#[trigger] segments(path)[i]),
{
    lemma_segments_from_are_proper(Seq::empty(), path);
}

proof fn lemma_segments_from_are_proper(current: Seq<char>, rest: Seq<char>)
    requires
        forall|j: int| 0 <= j < current.len() ==> current[j] != '/',
    ensures
        forall|i: int|
            0 <= i < segments_from(current, rest).len() ==> is_segment(
                #[trigger] segments_from(current, rest)[i],
            ),
    decreases rest.len(),
{
    let found = segments_from(current, rest);
    if rest.len() == 0 {
        if current.len() > 0 {
            assert(is_segment(current));
            assert(found == seq![current]);
        }
    } else if rest[0] == '/' {
        let later = segments_from(Seq::empty(), rest.skip(1));
        lemma_segments_from_are_proper(Seq::empty(), rest.skip(1));
        if current.len() > 0 {
            assert(is_segment(current));
            assert(found == seq![current] + later);
            assert forall|i: int| 0 <= i < found.len() implies is_segment(#[trigger] found[i]) by {
                if i > 0 {
                    assert(found[i] == later[i - 1]);
                }
            }
        } else {
            assert(found == later);
        }
    } else {
        let longer = current.push(rest[0]);
        assert forall|j: int| 0 <= j < longer.len() implies longer[j] != '/' by {
            if j < current.len() {
                assert(longer[j] == current[j]);
            }
        }
        lemma_segments_from_are_proper(longer, rest.skip(1));
        assert(found == segments_from(longer, rest.skip(1)));
    }
}

/// Reading on through a run of characters other than `/` only lengthens the
/// segment in progress.
proof fn lemma_read_through(current: Seq<char>, run: Seq<char>, rest: Seq<char>)
    requires
        forall|j: int| 0 <= j < run.len() ==> run[j] != '/',
    ensures
        segments_from(current, run + rest) == segments_from(current + run, rest),
    decreases run.len(),
{
    if run.len() == 0 {
        assert(run + rest == rest);
        assert(current + run == current);
    } else {
        assert((run + rest)[0] == run[0]);
        assert((run + rest).skip(1) == run.skip(1) + rest);
        lemma_read_through(current.push(run[0]), run.skip(1), rest);
        assert(current.push(run[0]) + run.skip(1) == current + run);
    }
}

/// A `/` ends whatever segment is in progress: what follows it is read on
/// its own.
proof fn lemma_separator_splits(current: Seq<char>, left: Seq<char>, right: Seq<char>)
    ensures
        segments_from(current, left + seq!['/'] + right) == segments_from(current, left)
            + segments(right),
    decreases left.len(),
{
    let whole = left + seq!['/'] + right;
    if left.len() == 0 {
        assert(whole[0] == '/');
        assert(whole.skip(1) == right);
        if current.len() == 0 {
            assert(Seq::<Seq<char>>::empty() + segments(right) == segments(right));
        }
    } else {
        assert(whole[0] == left[0]);
        assert(whole.skip(1) == left.skip(1) + seq!['/'] + right);
        if left[0] == '/' {
            lemma_separator_splits(Seq::empty(), left.skip(1), right);
            if current.len() > 0 {
                assert(seq![current] + (segments_from(Seq::empty(), left.skip(1)) + segments(
                    right,
                )) == seq![current] + segments_from(Seq::empty(), left.skip(1)) + segments(right));
            }
        } else {
            lemma_separator_splits(current.push(left[0]), left.skip(1), right);
        }
    }
}

/// Splitting what `joined` wrote gives the segments back.
pub proof fn joined_splits_back(parts: Seq<Seq<char>>)
    requires
        forall|i: int| 0 <= i < parts.len() ==> is_segment(#[trigger] parts[i]),
    ensures
        segments(joined(parts)) == parts,
    decreases parts.len(),
{
    if parts.len() == 0 {
    } else {
        let last = parts.last();
        assert(is_segment(last));
        assert(segments(last) == seq![last]) by {
            lemma_read_through(Seq::empty(), last, Seq::empty());
            assert(last + Seq::<char>::empty() == last);
            assert(Seq::<char>::empty() + last == last);
        }
        if parts.len() == 1 {
            assert(parts == seq![last]);
        } else {
            let earlier = parts.drop_last();
            assert forall|i: int| 0 <= i < earlier.len() implies is_segment(
                #[trigger] earlier[i],
            ) by {
                assert(earlier[i] == parts[i]);
            }
            joined_splits_back(earlier);
            lemma_separator_splits(Seq::empty(), joined(earlier), last);
            assert(earlier + seq![last] == parts);
        }
    }
}

/// The same root, kind and discovered path always give the same name.
pub proof fn naming_is_deterministic(
    root: Seq<char>,
    kind: RootKind,
    discovered: Seq<char>,
    other_root: Seq<char>,
    other_kind: RootKind,
    other_discovered: Seq<char>,
)
    requires
        root == other_root,
        kind == other_kind,
        discovered == other_discovered,
    ensures
        entry_name(root, kind, discovered) == entry_name(other_root, other_kind, other_discovered),
{
}

/// An entry name is not empty, is relative, and is spelled canonically:
/// it splits into exactly the segments it was made of.
pub proof fn entry_names_are_relative(root: Seq<char>, kind: RootKind, discovered: Seq<char>)
    ensures
        entry_name(root, kind, discovered) matches Some(name) ==> {
            &&& name.len() > 0
            &&& !is_rooted(name)
            &&& segments(name) == entry_segments(root, kind, discovered)
        },
{
    let parts = entry_segments(root, kind, discovered);
    if parts.len() > 0 {
        segments_are_proper(root);
        segments_are_proper(discovered);
        assert forall|i: int| 0 <= i < parts.len() implies is_segment(#[trigger] parts[i]) by {
            match kind {
                RootKind::SingleFile => {},
                RootKind::Directory => {
                    let found = segments(discovered);
                    if parts != found {
                        assert(parts[i] == found[i + anchor(root).len()]);
                    }
                },
            }
        }
        joined_splits_back(parts);
        lemma_joined_starts_with_segment(parts);
        assert(is_segment(parts[0]));
    }
}

/// What `joined` writes is empty or starts with a character of its first
/// segment.
proof fn lemma_joined_starts_with_segment(parts: Seq<Seq<char>>)
    requires
        forall|i: int| 0 <= i < parts.len() ==> is_segment(#[trigger] parts[i]),
    ensures
        parts.len() == 0 ==> joined(parts).len() == 0,
        parts.len() > 0 ==> joined(parts).len() > 0 && joined(parts)[0] == parts[0][0],
    decreases parts.len(),
{
    if parts.len() > 1 {
        let earlier = parts.drop_last();
        assert forall|i: int| 0 <= i < earlier.len() implies is_segment(
            #[trigger] earlier[i],
        ) by {
            assert(earlier[i] == parts[i]);
        }
        lemma_joined_starts_with_segment(earlier);
        assert(earlier[0] == parts[0]);
    } else if parts.len() == 1 {
        assert(is_segment(parts[0]));
    }
}

/// Two files found beneath the same selected directory bear the same entry
/// name only if they are the same path, that is, made of the same segments.
pub proof fn names_do_not_collide(root: Seq<char>, first: Seq<char>, second: Seq<char>)
    requires
        lies_under(root, first),
        lies_under(root, second),
        entry_name(root, RootKind::Directory, first) == entry_name(
            root,
            RootKind::Directory,
            second,
        ),
    ensures
        segments(first) == segments(second),
        is_rooted(first) == is_rooted(second),
{
    let base = anchor(root);
    let a = segments(first);
    let b = segments(second);
    assert(base.is_prefix_of(a));
    assert(base.is_prefix_of(b));
    let rest_a = a.skip(base.len() as int);
    let rest_b = b.skip(base.len() as int);
    assert(entry_segments(root, RootKind::Directory, first) == rest_a);
    assert(entry_segments(root, RootKind::Directory, second) == rest_b);
    segments_are_proper(first);
    segments_are_proper(second);
    assert forall|i: int| 0 <= i < rest_a.len() implies is_segment(#[trigger] rest_a[i]) by {
        assert(rest_a[i] == a[i + base.len()]);
    }
    assert forall|i: int| 0 <= i < rest_b.len() implies is_segment(#[trigger] rest_b[i]) by {
        assert(rest_b[i] == b[i + base.len()]);
    }
    joined_splits_back(rest_a);
    joined_splits_back(rest_b);
    assert(rest_a == rest_b);
    assert(a == base + rest_a);
    assert(b == base + rest_b);
}

} // verus!
