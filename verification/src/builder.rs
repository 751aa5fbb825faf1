//! The archive builder: the decisions of a build, one step at a time.
//!
//! A build touches the disk, and this library does not. The builder therefore
//! never acts itself. Each call of `step` takes the result of the last thing
//! the caller did (an `Event`) and answers with the next thing to do (an
//! `Action`), until it answers `Finish`. Everything that is decided in a
//! build is decided here: when there is nothing to do, the order of the
//! roots, what is archived under which name, which trouble is passed over and
//! which ends the build.

use crate::naming::texts;
use crate::path_set::PathSet;
use crate::plan::plan_entries;
use crate::plan::planned;
use crate::plan::plans;
use crate::plan::Plan;
use crate::plan::PlannedEntry;
use crate::sink::Entry;
use crate::sink::ZipSink;
use crate::traversal::RootProbe;
use crate::writer::closes;
use crate::writer::fills;
use crate::writer::opens;
use crate::writer::sealed;
use crate::writer::uniform_entry;
use crate::writer::well_formed;
use crate::writer::Archive;
use crate::writer::ArchiveError;
use crate::writer::ArchiveWriter;
use vstd::prelude::*;
use vstd::string::StringExecFns;
use vstd::string::StrSliceExecFns;

verus! {

broadcast use vstd::string::group_string_axioms;

/// Where a build stands.
#[derive(Clone, Copy, Debug, PartialEq, Eq, Structural)]
pub enum Phase {
    /// Nothing has happened yet.
    Idle,
    /// The destination is being prepared and opened.
    Opening,
    /// The roots are being probed and their files archived.
    Writing,
    /// The container is closed and on its way to disk.
    Finalizing,
    /// The build has ended without a failure.
    Done,
    /// The build has ended in a failure.
    Failed,
}

/// Why a whole build failed.
#[derive(Debug, PartialEq, Eq)]
pub enum BuildError {
    /// The directory for the archive could not be created.
    CreateDirectory(String),
    /// The archive file could not be created.
    OpenArchive(String),
    /// The archive could not be closed or written out.
    Finalize(String),
    /// An event arrived that answers no action the builder had asked for.
    Protocol,
}

/// How a build ended.
#[derive(Debug, PartialEq, Eq)]
pub enum Outcome {
    /// Nothing was selected: nothing was created or changed.
    NothingToDo,
    /// The archive is complete on disk.
    Success,
    /// The build failed; whatever is at the destination is not an archive.
    Failure(BuildError),
}

/// What the caller reports back to the builder.
pub enum Event {
    /// The build is to begin.
    Start,
    /// The directory for the archive exists.
    DirectoryReady,
    /// The directory for the archive could not be created.
    DirectoryFailed(String),
    /// The archive file has been created.
    ArchiveOpened,
    /// The archive file could not be created.
    OpenFailed(String),
    /// What was found at the root that was to be probed.
    Probed(RootProbe),
    /// The file that was to be read, whole, in the transfer buffer.
    FileRead(Vec<u8>),
    /// The file could not be read to its end; the transfer buffer comes back
    /// with whatever it holds.
    FileUnreadable(Vec<u8>),
    /// The archive's bytes are on disk.
    Written,
    /// The archive's bytes could not be written.
    WriteFailed(String),
}

/// What the builder asks the caller to do next.
pub enum Action {
    /// Create this directory, and whatever is missing above it.
    CreateDirectory(String),
    /// Create the archive file at this path.
    OpenArchive(String),
    /// Look at this root, and walk it if it is a directory.
    Probe(String),
    /// Read the file at `path` to its end into `buffer`.
    Read { path: String, buffer: Vec<u8> },
    /// Write these bytes to the archive file and close it.
    Write(Archive),
    /// Report this outcome; the build is over.
    Finish(Outcome),
}

/// The path of the archive named `name` in `directory`.
pub open spec fn destination_of(directory: Seq<char>, name: Seq<char>) -> Seq<char> {
    if directory.len() == 0 {
        name
    } else if directory.last() == '/' {
        directory + name
    } else {
        directory + seq!['/'] + name
    }
}

/// What a builder knows.
pub struct BuildState {
    /// Where the build stands.
    pub phase: Phase,
    /// The selected roots in build order.
    pub roots: Seq<Seq<char>>,
    /// The directory the archive goes to.
    pub directory: Seq<char>,
    /// The path of the archive file.
    pub destination: Seq<char>,
    /// Whether the directory has been reported ready, so that it is the
    /// archive file that is awaited while opening.
    pub directory_ready: bool,
    /// How many roots have been probed.
    pub probed: nat,
    /// The plan of the root probed last.
    pub pending: Seq<Plan>,
    /// How many entries of that plan have been dealt with.
    pub served: nat,
    /// Whether a file is out for reading, rather than a root for probing.
    pub reading: bool,
    /// The entries that the archive holds.
    pub archived: Seq<Entry>,
    /// The container as it stands; once it has been closed, as it stood
    /// then.
    pub container: ZipSink,
    /// The container as it stood when its newest entry had just been opened.
    pub opened: ZipSink,
    /// How the build ended, once it has.
    pub outcome: Option<Outcome>,
}

/// What holds of the state of every builder.
pub open spec fn coherent(state: BuildState) -> bool {
    &&& state.probed <= state.roots.len()
    &&& state.served <= state.pending.len()
    &&& state.roots.no_duplicates()
    &&& well_formed(state.archived)
    &&& match state.phase {
        Phase::Idle => state.outcome is None && state.archived.len() == 0 && state.probed == 0
            && state.pending.len() == 0 && !state.directory_ready,
        Phase::Opening => state.outcome is None && state.archived.len() == 0 && state.probed == 0
            && state.pending.len() == 0 && state.roots.len() > 0,
        Phase::Writing => state.outcome is None && state.roots.len() > 0 && state.directory_ready
            && if state.reading {
            state.served < state.pending.len()
        } else {
            state.served == state.pending.len() && state.probed < state.roots.len()
        },
        Phase::Finalizing => state.outcome is None && state.roots.len() > 0 && state.probed
            == state.roots.len() && state.served == state.pending.len()
            && state.directory_ready,
        Phase::Done => state.outcome == Some(Outcome::NothingToDo) && state.roots.len() == 0
            || state.outcome == Some(Outcome::Success) && state.roots.len() > 0,
        Phase::Failed => state.outcome matches Some(Outcome::Failure(_)),
    }
}

/// The build ends with `outcome`: the state records it and the action
/// reports it.
pub open spec fn concludes(
    pre: BuildState,
    post: BuildState,
    action: Action,
    outcome: Outcome,
) -> bool {
    &&& post == BuildState {
        phase: if outcome is Failure {
            Phase::Failed
        } else {
            Phase::Done
        },
        outcome: Some(outcome),
        ..pre
    }
    &&& action == Action::Finish(outcome)
}

/// From `mid`, the state after an event has been taken in, the build goes on
/// with what is due next: the next file of the current plan, else the next
/// root, else the closing of the container. The bytes go out to be written
/// exactly when the container, as it stands, can be closed; otherwise the
/// build fails.
pub open spec fn proceeds(mid: BuildState, post: BuildState, action: Action) -> bool {
    if mid.served < mid.pending.len() {
        &&& post == BuildState { phase: Phase::Writing, reading: true, ..mid }
        &&& action matches Action::Read { path, buffer }
        &&& path@ == mid.pending[mid.served as int].source
        &&& buffer@.len() == 0
    } else if mid.probed < mid.roots.len() {
        &&& post == BuildState { phase: Phase::Writing, reading: false, ..mid }
        &&& action matches Action::Probe(path)
        &&& path@ == mid.roots[mid.probed as int]
    } else if closes(mid.container) {
        &&& post == BuildState { phase: Phase::Finalizing, reading: false, ..mid }
        &&& action matches Action::Write(archive)
        &&& archive.entries() == mid.archived
        &&& archive.bytes() == sealed(mid.container)
    } else {
        &&& post.outcome matches Some(Outcome::Failure(BuildError::Finalize(_)))
        &&& concludes(mid, post, action, post.outcome->0)
    }
}

/// Whether the file read for the plan that is due is taken into the archive:
/// the container as it stood opens an entry under the planned name and, with
/// it just opened, takes the file's bytes.
pub open spec fn takes_file(pre: BuildState, buffer: Seq<u8>, post: BuildState) -> bool {
    opens(pre.container, pre.pending[pre.served as int].name) && fills(post.opened, buffer)
}

/// The state once the store of the file read for the plan that is due has
/// been answered: the plan is dealt with, and the archive holds `entry` more
/// exactly if it was `stored`. The container is as the store left it.
pub open spec fn with_stored(
    pre: BuildState,
    stored: bool,
    entry: Entry,
    container: ZipSink,
    opened: ZipSink,
) -> BuildState {
    BuildState {
        served: pre.served + 1,
        archived: if stored {
            pre.archived.push(entry)
        } else {
            pre.archived
        },
        container,
        opened,
        ..pre
    }
}

/// What one step does: for the state before, the event, the state after and
/// the action, whether the step is a step of a build.
///
/// Where the container has a say, the step goes by its answer: a file that
/// was read is archived exactly when the container takes it, and the bytes
/// go out exactly when the container can be closed.
pub open spec fn steps_to(pre: BuildState, event: Event, post: BuildState, action: Action) -> bool {
    match pre.phase {
        Phase::Done | Phase::Failed => {
            &&& post == pre
            &&& pre.outcome matches Some(outcome)
            &&& action == Action::Finish(outcome)
        },
        Phase::Idle => match event {
            Event::Start => if pre.roots.len() == 0 {
                concludes(pre, post, action, Outcome::NothingToDo)
            } else {
                &&& post == BuildState { phase: Phase::Opening, ..pre }
                &&& action matches Action::CreateDirectory(path)
                &&& path@ == pre.directory
            },
            _ => concludes(pre, post, action, Outcome::Failure(BuildError::Protocol)),
        },
        Phase::Opening => if pre.directory_ready {
            match event {
                Event::ArchiveOpened => proceeds(
                    BuildState { phase: Phase::Writing, ..pre },
                    post,
                    action,
                ),
                Event::OpenFailed(why) => concludes(
                    pre,
                    post,
                    action,
                    Outcome::Failure(BuildError::OpenArchive(why)),
                ),
                _ => concludes(pre, post, action, Outcome::Failure(BuildError::Protocol)),
            }
        } else {
            match event {
                Event::DirectoryReady => {
                    &&& post == BuildState { directory_ready: true, ..pre }
                    &&& action matches Action::OpenArchive(path)
                    &&& path@ == pre.destination
                },
                Event::DirectoryFailed(why) => concludes(
                    pre,
                    post,
                    action,
                    Outcome::Failure(BuildError::CreateDirectory(why)),
                ),
                _ => concludes(pre, post, action, Outcome::Failure(BuildError::Protocol)),
            }
        },
        Phase::Writing => match event {
            Event::Probed(probe) => if pre.reading {
                concludes(pre, post, action, Outcome::Failure(BuildError::Protocol))
            } else {
                proceeds(
                    BuildState {
                        pending: planned(pre.roots[pre.probed as int], probe),
                        served: 0,
                        probed: pre.probed + 1,
                        ..pre
                    },
                    post,
                    action,
                )
            },
            Event::FileRead(buffer) => if pre.reading {
                proceeds(
                    with_stored(
                        pre,
                        takes_file(pre, buffer@, post),
                        uniform_entry(pre.pending[pre.served as int].name, buffer@),
                        post.container,
                        post.opened,
                    ),
                    post,
                    action,
                )
            } else {
                concludes(pre, post, action, Outcome::Failure(BuildError::Protocol))
            },
            Event::FileUnreadable(_) => if pre.reading {
                proceeds(BuildState { served: pre.served + 1, ..pre }, post, action)
            } else {
                concludes(pre, post, action, Outcome::Failure(BuildError::Protocol))
            },
            _ => concludes(pre, post, action, Outcome::Failure(BuildError::Protocol)),
        },
        Phase::Finalizing => match event {
            Event::Written => concludes(pre, post, action, Outcome::Success),
            Event::WriteFailed(why) => concludes(
                pre,
                post,
                action,
                Outcome::Failure(BuildError::Finalize(why)),
            ),
            _ => concludes(pre, post, action, Outcome::Failure(BuildError::Protocol)),
        },
    }
}

impl BuildError {
    /// A second value equal to this one.
    pub fn duplicate(&self) -> (copy: BuildError)
        ensures
            copy == *self,
    {
        match self {
            BuildError::CreateDirectory(why) => BuildError::CreateDirectory(why.clone()),
            BuildError::OpenArchive(why) => BuildError::OpenArchive(why.clone()),
            BuildError::Finalize(why) => BuildError::Finalize(why.clone()),
            BuildError::Protocol => BuildError::Protocol,
        }
    }
}

impl Outcome {
    /// A second value equal to this one.
    pub fn duplicate(&self) -> (copy: Outcome)
        ensures
            copy == *self,
    {
        match self {
            Outcome::NothingToDo => Outcome::NothingToDo,
            Outcome::Success => Outcome::Success,
            Outcome::Failure(error) => Outcome::Failure(error.duplicate()),
        }
    }
}

/// Writes the path of the archive named `name` in `directory`.
pub fn destination_path(directory: &str, name: &str) -> (path: String)
    ensures
        path@ == destination_of(directory@, name@),
{
    let n = directory.unicode_len();
    let mut path = String::from_str(directory);
    if n > 0 && directory.get_char(n - 1) != '/' {
        proof {
            reveal_strlit("/");
        }
        path.append("/");
        assert("/"@ == seq!['/']);
    }
    if n == 0 {
        assert(directory@ + name@ == name@);
    }
    path.append(name);
    path
}

/// A build in progress.
pub struct ArchiveBuilder {
    phase: Phase,
    roots: Vec<String>,
    directory: String,
    destination: String,
    directory_ready: bool,
    probed: usize,
    pending: Vec<PlannedEntry>,
    served: usize,
    reading: bool,
    writer: ArchiveWriter,
    archived: Ghost<Seq<Entry>>,
    container: Ghost<ZipSink>,
    opened: Ghost<ZipSink>,
    outcome: Option<Outcome>,
}

impl View for ArchiveBuilder {
    type V = BuildState;

    closed spec fn view(&self) -> BuildState {
        BuildState {
            phase: self.phase,
            roots: texts(self.roots@),
            directory: self.directory@,
            destination: self.destination@,
            directory_ready: self.directory_ready,
            probed: self.probed as nat,
            pending: plans(self.pending@),
            served: self.served as nat,
            reading: self.reading,
            archived: self.archived@,
            container: self.container@,
            opened: self.opened@,
            outcome: self.outcome,
        }
    }
}

impl ArchiveBuilder {
    /// The writer at hand.
    pub closed spec fn at_hand(&self) -> ArchiveWriter {
        self.writer
    }

    /// Whether the writer at hand is the one that the state speaks of: until
    /// the container is closed it holds what the state says is archived, and
    /// its container is the state's.
    pub open spec fn holds_archive(&self) -> bool {
        &&& self.at_hand().wf()
        &&& self@.phase is Idle || self@.phase is Opening || self@.phase is Writing ==> {
            &&& self.at_hand().entries() == self@.archived
            &&& self.at_hand().container() == self@.container
            &&& self.at_hand().opened() == self@.opened
        }
    }

    /// Whether the builder stands between the store of the file that was
    /// read and the taking in of its answer `stored`: the state is that from
    /// before the store, and the writer at hand holds one entry more, under
    /// the planned name, exactly if the store succeeded.
    pub open spec fn storing(&self, stored: Result<(), ArchiveError>) -> bool {
        &&& coherent(self@)
        &&& self@.phase is Writing
        &&& self@.reading
        &&& self.at_hand().wf()
        &&& if stored is Ok {
            &&& self.at_hand().entries().len() > 0
            &&& self.at_hand().entries() == self@.archived.push(self.at_hand().entries().last())
            &&& self.at_hand().entries().last().name == self@.pending[self@.served as int].name
        } else {
            self.at_hand().entries() == self@.archived
        }
    }

    /// What holds of every builder.
    pub open spec fn wf(&self) -> bool {
        coherent(self@) && self.holds_archive()
    }

    /// A build of the paths in `paths`, in their order, into the archive
    /// named `archive_name` in `directory`. Later changes to `paths` do not
    /// reach the build.
    pub fn new(paths: &PathSet, directory: &str, archive_name: &str) -> (builder: ArchiveBuilder)
        requires
            paths.wf(),
        ensures
            builder.wf(),
            builder@ == (BuildState {
                phase: Phase::Idle,
                roots: paths@,
                directory: directory@,
                destination: destination_of(directory@, archive_name@),
                directory_ready: false,
                probed: 0,
                pending: Seq::empty(),
                served: 0,
                reading: false,
                archived: Seq::empty(),
                outcome: None,
                ..builder@
            }),
            builder@.opened == builder@.container,
    {
        let listed = paths.list();
        let mut roots: Vec<String> = Vec::new();
        let mut i: usize = 0;
        while i < listed.len()
            invariant
                i <= listed.len(),
                texts(roots@) == texts(listed@).take(i as int),
            decreases listed.len() - i,
        {
            let ghost before = texts(roots@);
            roots.push(listed[i].clone());
            assert(texts(roots@) == before.push(listed@[i as int]@));
            assert(texts(listed@).take(i + 1) == texts(listed@).take(i as int).push(
                listed@[i as int]@,
            ));
            i = i + 1;
        }
        assert(texts(listed@).take(i as int) == texts(listed@));
        assert(texts(roots@) == paths@);
        let writer = ArchiveWriter::open();
        let builder = ArchiveBuilder {
            phase: Phase::Idle,
            roots,
            directory: String::from_str(directory),
            destination: destination_path(directory, archive_name),
            directory_ready: false,
            probed: 0,
            pending: Vec::new(),
            served: 0,
            reading: false,
            archived: Ghost(Seq::empty()),
            container: Ghost(writer.container()),
            opened: Ghost(writer.opened()),
            writer,
            outcome: None,
        };
        assert(builder@.pending == Seq::<Plan>::empty());
        builder
    }

    /// Where the build stands.
    pub fn phase(&self) -> (phase: Phase)
        ensures
            phase == self@.phase,
    {
        self.phase
    }

    /// Ends the build with `outcome`.
    fn conclude(&mut self, outcome: Outcome) -> (action: Action)
        requires
            old(self).holds_archive(),
        ensures
            final(self).holds_archive(),
            concludes(old(self)@, final(self)@, action, outcome),
    {
        let report = outcome.duplicate();
        self.phase = match outcome {
            Outcome::Failure(_) => Phase::Failed,
            _ => Phase::Done,
        };
        self.outcome = Some(outcome);
        Action::Finish(report)
    }

    /// Goes on with what is due next.
    fn proceed(&mut self) -> (action: Action)
        requires
            old(self).phase is Writing,
            old(self).holds_archive(),
            old(self).served <= old(self).pending.len(),
            old(self).probed <= old(self).roots.len(),
        ensures
            final(self).holds_archive(),
            proceeds(old(self)@, final(self)@, action),
    {
        if self.served < self.pending.len() {
            self.reading = true;
            let path = self.pending[self.served].source.clone();
            let buffer = self.writer.lend_buffer();
            Action::Read { path, buffer }
        } else if self.probed < self.roots.len() {
            self.reading = false;
            Action::Probe(self.roots[self.probed].clone())
        } else {
            let mut writer = ArchiveWriter::open();
            std::mem::swap(&mut self.writer, &mut writer);
            self.phase = Phase::Finalizing;
            match writer.finalize() {
                Ok(archive) => {
                    self.reading = false;
                    Action::Write(archive)
                },
                Err(error) => {
                    let why = error.describe();
                    self.conclude(Outcome::Failure(BuildError::Finalize(why)))
                },
            }
        }
    }

    /// Takes in `stored`, the writer's answer to the store of the file that
    /// was read for the plan that is due, and answers with the action to
    /// take next. The plan is dealt with either way; the archive holds the
    /// entry that the writer has added exactly if the store succeeded.
    pub fn after_store(&mut self, stored: Result<(), ArchiveError>) -> (action: Action)
        requires
            old(self).storing(stored),
        ensures
            final(self).wf(),
            proceeds(
                with_stored(
                    old(self)@,
                    stored is Ok,
                    old(self).at_hand().entries().last(),
                    old(self).at_hand().container(),
                    old(self).at_hand().opened(),
                ),
                final(self)@,
                action,
            ),
    {
        self.archived = Ghost(self.writer.entries());
        self.container = Ghost(self.writer.container());
        self.opened = Ghost(self.writer.opened());
        assert(self.served < self.pending.len());
        self.served = self.served + 1;
        self.proceed()
    }

    /// Takes in `event`, the result of the action asked for last, and
    /// answers with the action to take next. The first event is `Start`;
    /// after `Finish` every event is answered with the same `Finish`.
    pub fn step(&mut self, event: Event) -> (action: Action)
        requires
            old(self).wf(),
        ensures
            final(self).wf(),
            steps_to(old(self)@, event, final(self)@, action),
    {
        match self.phase {
            Phase::Done | Phase::Failed => {
                match &self.outcome {
                    Some(outcome) => Action::Finish(outcome.duplicate()),
                    None => {
                        assert(false);
                        Action::Finish(Outcome::Failure(BuildError::Protocol))
                    },
                }
            },
            Phase::Idle => match event {
                Event::Start => {
                    if self.roots.len() == 0 {
                        self.conclude(Outcome::NothingToDo)
                    } else {
                        self.phase = Phase::Opening;
                        Action::CreateDirectory(self.directory.clone())
                    }
                },
                _ => self.conclude(Outcome::Failure(BuildError::Protocol)),
            },
            Phase::Opening => if self.directory_ready {
                match event {
                    Event::ArchiveOpened => {
                        self.phase = Phase::Writing;
                        self.proceed()
                    },
                    Event::OpenFailed(why) => self.conclude(
                        Outcome::Failure(BuildError::OpenArchive(why)),
                    ),
                    _ => self.conclude(Outcome::Failure(BuildError::Protocol)),
                }
            } else {
                match event {
                    Event::DirectoryReady => {
                        self.directory_ready = true;
                        Action::OpenArchive(self.destination.clone())
                    },
                    Event::DirectoryFailed(why) => self.conclude(
                        Outcome::Failure(BuildError::CreateDirectory(why)),
                    ),
                    _ => self.conclude(Outcome::Failure(BuildError::Protocol)),
                }
            },
            Phase::Writing => match event {
                Event::Probed(probe) => {
                    if self.reading {
                        self.conclude(Outcome::Failure(BuildError::Protocol))
                    } else {
                        assert(self.probed < self.roots.len());
                        self.pending = plan_entries(self.roots[self.probed].as_str(), &probe);
                        self.served = 0;
                        self.probed = self.probed + 1;
                        self.proceed()
                    }
                },
                Event::FileRead(buffer) => {
                    if self.reading {
                        assert(self.served < self.pending.len());
                        let stored = self.writer.store_buffer(
                            self.pending[self.served].name.as_str(),
                            buffer,
                        );
                        self.after_store(stored)
                    } else {
                        self.conclude(Outcome::Failure(BuildError::Protocol))
                    }
                },
                Event::FileUnreadable(buffer) => {
                    if self.reading {
                        assert(self.served < self.pending.len());
                        self.writer.return_buffer(buffer);
                        self.served = self.served + 1;
                        self.proceed()
                    } else {
                        self.conclude(Outcome::Failure(BuildError::Protocol))
                    }
                },
                _ => self.conclude(Outcome::Failure(BuildError::Protocol)),
            },
            Phase::Finalizing => match event {
                Event::Written => self.conclude(Outcome::Success),
                Event::WriteFailed(why) => self.conclude(
                    Outcome::Failure(BuildError::Finalize(why)),
                ),
                _ => self.conclude(Outcome::Failure(BuildError::Protocol)),
            },
        }
    }
}

/// How far along a phase is; the two ends of a build count the same.
pub open spec fn progress(phase: Phase) -> nat {
    match phase {
        Phase::Idle => 0,
        Phase::Opening => 1,
        Phase::Writing => 2,
        Phase::Finalizing => 3,
        Phase::Done => 4,
        Phase::Failed => 4,
    }
}

/// Whether `event` reports on what the builder asked for last while writing:
/// a probe when a root was to be probed, a file when one was to be read.
pub open spec fn answers_writing(state: BuildState, event: Event) -> bool {
    if state.reading {
        event is FileRead || event is FileUnreadable
    } else {
        event is Probed
    }
}

/// A build of an empty selection asks for nothing to be created, opened,
/// read or written: its only answer is to finish, and to `Start` it answers
/// that there was nothing to do.
pub proof fn empty_selection_touches_nothing(
    pre: BuildState,
    event: Event,
    post: BuildState,
    action: Action,
)
    requires
        coherent(pre),
        pre.roots.len() == 0,
        steps_to(pre, event, post, action),
    ensures
        action is Finish,
        post.archived == pre.archived,
        post.roots.len() == 0,
        pre.phase is Idle && event is Start ==> (action == Action::Finish(Outcome::NothingToDo)
            && post.phase is Done),
{
}

/// While writing, trouble with a single root or file never fails the build:
/// after a missing root, an unreadable file or an entry that the container
/// does not take, the build is still writing or goes on to close the
/// container. Only the closing itself can fail it.
pub proof fn file_trouble_is_passed_over(
    pre: BuildState,
    event: Event,
    post: BuildState,
    action: Action,
)
    requires
        coherent(pre),
        pre.phase is Writing,
        answers_writing(pre, event),
        steps_to(pre, event, post, action),
    ensures
        post.phase is Writing || post.phase is Finalizing || (post.phase is Failed
            && post.outcome matches Some(Outcome::Failure(BuildError::Finalize(_)))),
        event matches Event::Probed(RootProbe::Missing) ==> (post.archived == pre.archived
            && post.pending.len() == 0),
        event is FileUnreadable ==> post.archived == pre.archived,
{
}

/// A file that was read is archived exactly when the container takes it: it
/// opens an entry under the planned name and, with it just opened, takes the
/// whole of the file. The entry then stands last in the archive; otherwise
/// the archive holds what it held. Either way the plan is dealt with.
pub proof fn read_files_are_archived(
    pre: BuildState,
    buffer: Vec<u8>,
    post: BuildState,
    action: Action,
)
    requires
        coherent(pre),
        pre.phase is Writing,
        pre.reading,
        steps_to(pre, Event::FileRead(buffer), post, action),
    ensures
        takes_file(pre, buffer@, post) ==> post.archived == pre.archived.push(
            uniform_entry(pre.pending[pre.served as int].name, buffer@),
        ),
        !takes_file(pre, buffer@, post) ==> post.archived == pre.archived,
        post.served == pre.served + 1,
        post.pending == pre.pending,
{
}

/// When the last plan is dealt with and no root is left, the bytes go out
/// to be written exactly when the container can be closed; a container that
/// cannot be closed fails the build. While work is left the container is not
/// asked.
pub proof fn container_decides_the_closing(
    pre: BuildState,
    event: Event,
    post: BuildState,
    action: Action,
)
    requires
        coherent(pre),
        pre.phase is Writing,
        answers_writing(pre, event),
        steps_to(pre, event, post, action),
    ensures
        post.phase is Writing <==> post.served < post.pending.len() || post.probed
            < post.roots.len(),
        post.phase is Finalizing <==> action is Write,
        !(post.phase is Writing) ==> (action is Write <==> closes(post.container)),
{
}

/// A file whose planned name an entry of the archive already bears is passed
/// over: the archive keeps the entry that came first.
pub proof fn colliding_names_are_passed_over(
    pre: BuildState,
    buffer: Vec<u8>,
    post: BuildState,
    action: Action,
    earlier: int,
)
    requires
        coherent(pre),
        coherent(post),
        pre.phase is Writing,
        pre.reading,
        steps_to(pre, Event::FileRead(buffer), post, action),
        0 <= earlier < pre.archived.len(),
        pre.archived[earlier].name == pre.pending[pre.served as int].name,
    ensures
        post.archived == pre.archived,
{
    if takes_file(pre, buffer@, post) {
        let last = pre.archived.len() as int;
        assert(post.archived[earlier] == pre.archived[earlier]);
        assert(post.archived[last].name == pre.pending[pre.served as int].name);
        assert(false);
    }
}

/// No step leaves a cut-off entry behind: the archive afterwards holds what
/// it held, or that and one more entry with the whole of the file that was
/// read, under the name that was planned for it.
pub proof fn entries_are_whole_or_absent(
    pre: BuildState,
    event: Event,
    post: BuildState,
    action: Action,
)
    requires
        coherent(pre),
        steps_to(pre, event, post, action),
    ensures
        ({
            ||| post.archived == pre.archived
            ||| {
                &&& pre.phase is Writing
                &&& pre.reading
                &&& event matches Event::FileRead(buffer)
                &&& post.archived == pre.archived.push(
                    uniform_entry(pre.pending[pre.served as int].name, buffer@),
                )
            }
        }),
        action matches Action::Write(archive) ==> archive.entries() == post.archived
            && archive.bytes() == sealed(post.container),
{
}

/// A build only moves forward, never changes its selection or destination,
/// and once it has ended it stays as it is.
pub proof fn builds_only_advance(pre: BuildState, event: Event, post: BuildState, action: Action)
    requires
        coherent(pre),
        steps_to(pre, event, post, action),
    ensures
        progress(pre.phase) <= progress(post.phase),
        post.roots == pre.roots,
        post.directory == pre.directory,
        post.destination == pre.destination,
        pre.phase is Done || pre.phase is Failed ==> post == pre,
        post.phase is Done || post.phase is Failed <==> action is Finish,
{
}

/// The roots are probed in selection order, one at a time, each once.
pub proof fn roots_are_probed_in_order(
    pre: BuildState,
    event: Event,
    post: BuildState,
    action: Action,
)
    requires
        coherent(pre),
        steps_to(pre, event, post, action),
    ensures
        action matches Action::Probe(path) ==> (post.probed < post.roots.len() && path@
            == post.roots[post.probed as int]),
        pre.probed <= post.probed <= pre.probed + 1,
        post.probed == pre.probed + 1 <==> pre.phase is Writing && !pre.reading && event is Probed,
{
}

} // verus!
