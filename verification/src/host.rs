//! The boundary to the operating system.
//!
//! An operation that has to act on the system between its decisions does not act
//! itself. It runs against a `Script`: it asks for one call after the other and
//! goes on with the replies that the script already holds. When a reply is
//! missing, the operation halts; the host performs the last call, adds its reply
//! to the script, rewinds it and runs the operation again from the start.

use crate::bytes;
use vstd::prelude::*;

verus! {

/// The kinds of input and output errors that decisions depend on.
#[derive(Clone, Copy, PartialEq, Eq, Structural, Debug)]
pub enum IoKind {
    NotFound,
    AlreadyExists,
    Interrupted,
    WouldBlock,
    TimedOut,
    InvalidData,
    InvalidInput,
    UnexpectedEof,
    Other,
}

/// A failed operation of the system.
#[derive(Debug)]
pub struct IoError {
    pub kind: IoKind,
    pub message: String,
}

#[verifier::ext_equal]
pub struct IoErrorView {
    pub kind: IoKind,
    pub message: Seq<char>,
}

impl DeepView for IoError {
    type V = IoErrorView;

    open spec fn deep_view(&self) -> IoErrorView {
        IoErrorView { kind: self.kind, message: self.message@ }
    }
}

impl IoError {
    /// An error of this kind with this message.
    pub fn new(kind: IoKind, message: &str) -> (error: IoError)
        ensures
            error.deep_view() == (IoErrorView { kind, message: message@ }),
    {
        IoError { kind, message: message.to_owned() }
    }

    pub fn copy(&self) -> (error: IoError)
        ensures
            error.deep_view() == self.deep_view(),
    {
        IoError { kind: self.kind, message: self.message.clone() }
    }
}

/// The files of a journal directory.
#[derive(Clone, Copy, PartialEq, Eq, Structural, Debug)]
pub enum JournalFile {
    Manifest,
    ManifestPending,
    FinalizeRequest,
    Segment(u64),
    Archive(u64),
    ArchivePending(u64),
}

/// What can be done to the files of a journal directory.
#[derive(Debug)]
pub enum FileAction {
    /// Create the directory, private to the user; it must not exist.
    MakeDirectory,
    /// Create a file, private to the user; it must not exist.
    Create(JournalFile),
    /// Write bytes at the end of a file that was created.
    Write(JournalFile, Vec<u8>),
    /// Make the contents of a file durable.
    SyncData(JournalFile),
    /// Make the contents and the length of a file durable.
    SyncAll(JournalFile),
    /// Give a file the place of another one.
    Rename(JournalFile, JournalFile),
    /// Make the entries of the directory durable.
    SyncDirectory,
    Remove(JournalFile),
    /// The length of a file in bytes.
    Length(JournalFile),
    /// The first bytes of a file, up to a limit.
    ReadStart(JournalFile, u64),
    /// Exactly so many bytes of a file, from an offset on.
    ReadAt(JournalFile, u64, u64),
    /// What stands at the place of a file; links are not followed.
    Describe(JournalFile),
}

pub enum FileActionView {
    MakeDirectory,
    Create(JournalFile),
    Write(JournalFile, Seq<u8>),
    SyncData(JournalFile),
    SyncAll(JournalFile),
    Rename(JournalFile, JournalFile),
    SyncDirectory,
    Remove(JournalFile),
    Length(JournalFile),
    ReadStart(JournalFile, u64),
    ReadAt(JournalFile, u64, u64),
    Describe(JournalFile),
}

impl DeepView for FileAction {
    type V = FileActionView;

    open spec fn deep_view(&self) -> FileActionView {
        match *self {
            FileAction::MakeDirectory => FileActionView::MakeDirectory,
            FileAction::Create(file) => FileActionView::Create(file),
            FileAction::Write(file, bytes) => FileActionView::Write(file, bytes@),
            FileAction::SyncData(file) => FileActionView::SyncData(file),
            FileAction::SyncAll(file) => FileActionView::SyncAll(file),
            FileAction::Rename(from, to) => FileActionView::Rename(from, to),
            FileAction::SyncDirectory => FileActionView::SyncDirectory,
            FileAction::Remove(file) => FileActionView::Remove(file),
            FileAction::Length(file) => FileActionView::Length(file),
            FileAction::ReadStart(file, limit) => FileActionView::ReadStart(file, limit),
            FileAction::ReadAt(file, offset, count) => FileActionView::ReadAt(file, offset, count),
            FileAction::Describe(file) => FileActionView::Describe(file),
        }
    }
}

/// What can be done to the terminal multiplexer's client process.
#[derive(Clone, Copy, PartialEq, Eq, Structural, Debug)]
pub enum ProcessAction {
    /// Make the nonblocking streams for the output and the diagnostics.
    Streams,
    /// Look whether the process has exited.
    Poll,
    /// Read what is there of the output, a few kilobytes at most.
    ReadOutput,
    /// Read what is there of the diagnostics, a few kilobytes at most.
    ReadDiagnostics,
    Kill,
    /// Wait for the end of a killed process.
    Reap,
}

/// What can be done at a path.
#[derive(Clone, Copy, PartialEq, Eq, Structural, Debug)]
pub enum PathAction {
    IsFile,
    IsDirectory,
    Exists,
    /// What stands there; links are not followed.
    Describe,
    /// Create a private directory and its parents.
    MakeDirectories,
    /// Create a private directory; it must not exist.
    MakeDirectory,
    /// Open a private lock file, which is created if need be.
    OpenLock,
    /// Take the lock of an opened lock file, without waiting.
    TryLock,
    Read,
    SyncDirectory,
    RemoveTree,
    /// The path without links.
    Canonical,
}

/// A call that an operation asks its host to perform.
#[derive(Debug)]
pub enum Call {
    /// Start the multiplexer's client, an executable with arguments: without input,
    /// with its output and diagnostics on the streams, with `TMUX` taken out of its
    /// environment and with `LC_ALL` set to `C`.
    Spawn(String, Vec<String>),
    Process(ProcessAction),
    /// The time in nanoseconds on a clock that never goes back.
    Clock,
    /// Sleep for so many milliseconds.
    Sleep(u64),
    /// Sixteen bytes from the system's source of randomness.
    RandomBytes,
    /// A variable of the environment.
    Variable(String),
    CurrentExecutable,
    Path(PathAction, String),
    /// Create a private file with these durable contents; it must not exist.
    WriteNew(String, Vec<u8>),
    /// The first bytes of a file, up to a limit.
    ReadStart(String, u64),
    Journal(String, FileAction),
}

pub enum CallView {
    Spawn(Seq<char>, Seq<Seq<char>>),
    Process(ProcessAction),
    Clock,
    Sleep(u64),
    RandomBytes,
    Variable(Seq<char>),
    CurrentExecutable,
    Path(PathAction, Seq<char>),
    WriteNew(Seq<char>, Seq<u8>),
    ReadStart(Seq<char>, u64),
    Journal(Seq<char>, FileActionView),
}

impl DeepView for Call {
    type V = CallView;

    open spec fn deep_view(&self) -> CallView {
        match *self {
            Call::Spawn(executable, arguments) => CallView::Spawn(
                executable@,
                arguments.deep_view(),
            ),
            Call::Process(action) => CallView::Process(action),
            Call::Clock => CallView::Clock,
            Call::Sleep(milliseconds) => CallView::Sleep(milliseconds),
            Call::RandomBytes => CallView::RandomBytes,
            Call::Variable(name) => CallView::Variable(name@),
            Call::CurrentExecutable => CallView::CurrentExecutable,
            Call::Path(action, path) => CallView::Path(action, path@),
            Call::WriteNew(path, bytes) => CallView::WriteNew(path@, bytes@),
            Call::ReadStart(path, limit) => CallView::ReadStart(path@, limit),
            Call::Journal(directory, action) => CallView::Journal(
                directory@,
                action.deep_view(),
            ),
        }
    }
}

/// What stands at a path.
#[derive(Clone, Copy, PartialEq, Eq, Structural, Debug)]
pub struct Entry {
    pub directory: bool,
    pub file: bool,
    /// No permission is granted to the group or to others.
    pub private: bool,
}

/// The host's answer to a call.
#[derive(Debug)]
pub enum Reply {
    Done,
    Flag(bool),
    Number(u64),
    Text(String),
    /// The variable is not set.
    Unset,
    Bytes(Vec<u8>),
    Entry(Entry),
    /// The process still runs.
    Running,
    /// The process has exited, successfully or not.
    Exited(bool),
    Failed(IoError),
}

pub enum ReplyView {
    Done,
    Flag(bool),
    Number(u64),
    Text(Seq<char>),
    Unset,
    Bytes(Seq<u8>),
    Entry(Entry),
    Running,
    Exited(bool),
    Failed(IoErrorView),
}

impl DeepView for Reply {
    type V = ReplyView;

    open spec fn deep_view(&self) -> ReplyView {
        match *self {
            Reply::Done => ReplyView::Done,
            Reply::Flag(flag) => ReplyView::Flag(flag),
            Reply::Number(number) => ReplyView::Number(number),
            Reply::Text(text) => ReplyView::Text(text@),
            Reply::Unset => ReplyView::Unset,
            Reply::Bytes(bytes) => ReplyView::Bytes(bytes@),
            Reply::Entry(entry) => ReplyView::Entry(entry),
            Reply::Running => ReplyView::Running,
            Reply::Exited(success) => ReplyView::Exited(success),
            Reply::Failed(error) => ReplyView::Failed(error.deep_view()),
        }
    }
}

impl Reply {
    fn copy(&self) -> (reply: Reply)
        ensures
            reply.deep_view() == self.deep_view(),
    {
        match self {
            Reply::Done => Reply::Done,
            Reply::Flag(flag) => Reply::Flag(*flag),
            Reply::Number(number) => Reply::Number(*number),
            Reply::Text(text) => Reply::Text(text.clone()),
            Reply::Unset => Reply::Unset,
            Reply::Bytes(data) => Reply::Bytes(bytes::copy(data.as_slice())),
            Reply::Entry(entry) => Reply::Entry(*entry),
            Reply::Running => Reply::Running,
            Reply::Exited(success) => Reply::Exited(*success),
            Reply::Failed(error) => Reply::Failed(error.copy()),
        }
    }
}

/// Why an operation did not come to its end.
#[derive(Debug)]
pub enum Halt<E> {
    /// The reply to the last call is missing.
    Waiting,
    Failed(E),
}

impl<E: DeepView> DeepView for Halt<E> {
    type V = Halt<E::V>;

    open spec fn deep_view(&self) -> Halt<E::V> {
        match *self {
            Halt::Waiting => Halt::Waiting,
            Halt::Failed(error) => Halt::Failed(error.deep_view()),
        }
    }
}

/// The model of what an operation returned.
pub open spec fn outcome<T: DeepView, E: DeepView>(r: Result<T, E>) -> Result<T::V, E::V> {
    match r {
        Ok(value) => Ok(value.deep_view()),
        Err(error) => Err(error.deep_view()),
    }
}

/// The calls that an operation asked for and the replies that are known.
pub struct Script {
    replies: Vec<Reply>,
    calls: Vec<Call>,
}

/// The model of a script.
#[verifier::ext_equal]
pub struct Transcript {
    pub replies: Seq<ReplyView>,
    pub calls: Seq<CallView>,
}

impl DeepView for Script {
    type V = Transcript;

    closed spec fn deep_view(&self) -> Transcript {
        Transcript { replies: self.replies.deep_view(), calls: self.calls.deep_view() }
    }
}

/// A call is recorded; its reply is the one at the same place among the replies.
pub open spec fn ask(t: Transcript, call: CallView) -> (Transcript, Option<ReplyView>) {
    (
        Transcript { replies: t.replies, calls: t.calls.push(call) },
        if t.calls.len() < t.replies.len() {
            Some(t.replies[t.calls.len() as int])
        } else {
            None
        },
    )
}

/// `next` continues `t`: the calls of `t` are its first calls.
pub open spec fn continues(t: Transcript, next: Transcript) -> bool {
    &&& next.replies == t.replies
    &&& t.calls.len() <= next.calls.len()
    &&& next.calls.take(t.calls.len() as int) == t.calls
}

/// What continues a continuation continues the beginning.
pub proof fn lemma_continues(t: Transcript, next: Transcript, last: Transcript)
    requires
        continues(t, next),
        continues(next, last),
    ensures
        continues(t, last),
        next.calls.len() > 0 ==> last.calls[next.calls.len() - 1] == next.calls.last(),
{
    assert(last.calls.take(t.calls.len() as int) =~= last.calls.take(
        next.calls.len() as int,
    ).take(t.calls.len() as int));
    if next.calls.len() > 0 {
        assert(last.calls.take(next.calls.len() as int)[next.calls.len() - 1]
            == last.calls[next.calls.len() - 1]);
    }
}

/// A call continues what came before it.
pub proof fn lemma_ask_continues(t: Transcript, call: CallView)
    ensures
        continues(t, ask(t, call).0),
        continues(t, t),
{
    assert(ask(t, call).0.calls.take(t.calls.len() as int) =~= t.calls);
    assert(t.calls.take(t.calls.len() as int) =~= t.calls);
}

/// The error for a reply that does not answer its call.
pub open spec fn unexpected_reply() -> IoErrorView {
    IoErrorView { kind: IoKind::InvalidData, message: "Unexpected reply from the host"@ }
}

pub type IoHalt = Halt<IoErrorView>;

/// A reply that is an error, is missing or is not of the expected form.
pub open spec fn refused(reply: Option<ReplyView>) -> IoHalt {
    match reply {
        None => Halt::Waiting,
        Some(ReplyView::Failed(error)) => Halt::Failed(error),
        Some(_) => Halt::Failed(unexpected_reply()),
    }
}

pub open spec fn ask_done(t: Transcript, call: CallView) -> (Transcript, Result<(), IoHalt>) {
    let (next, reply) = ask(t, call);
    (
        next,
        match reply {
            Some(ReplyView::Done) => Ok(()),
            _ => Err(refused(reply)),
        },
    )
}

pub open spec fn ask_flag(t: Transcript, call: CallView) -> (Transcript, Result<bool, IoHalt>) {
    let (next, reply) = ask(t, call);
    (
        next,
        match reply {
            Some(ReplyView::Flag(flag)) => Ok(flag),
            _ => Err(refused(reply)),
        },
    )
}

pub open spec fn ask_number(t: Transcript, call: CallView) -> (Transcript, Result<u64, IoHalt>) {
    let (next, reply) = ask(t, call);
    (
        next,
        match reply {
            Some(ReplyView::Number(number)) => Ok(number),
            _ => Err(refused(reply)),
        },
    )
}

pub open spec fn ask_text(
    t: Transcript,
    call: CallView,
) -> (Transcript, Result<Seq<char>, IoHalt>) {
    let (next, reply) = ask(t, call);
    (
        next,
        match reply {
            Some(ReplyView::Text(text)) => Ok(text),
            _ => Err(refused(reply)),
        },
    )
}

pub open spec fn ask_variable(t: Transcript, call: CallView) -> (
    Transcript,
    Result<Option<Seq<char>>, IoHalt>,
) {
    let (next, reply) = ask(t, call);
    (
        next,
        match reply {
            Some(ReplyView::Text(text)) => Ok(Some(text)),
            Some(ReplyView::Unset) => Ok(None),
            _ => Err(refused(reply)),
        },
    )
}

pub open spec fn ask_bytes(t: Transcript, call: CallView) -> (Transcript, Result<Seq<u8>, IoHalt>) {
    let (next, reply) = ask(t, call);
    (
        next,
        match reply {
            Some(ReplyView::Bytes(bytes)) => Ok(bytes),
            _ => Err(refused(reply)),
        },
    )
}

pub open spec fn ask_entry(t: Transcript, call: CallView) -> (Transcript, Result<Entry, IoHalt>) {
    let (next, reply) = ask(t, call);
    (
        next,
        match reply {
            Some(ReplyView::Entry(entry)) => Ok(entry),
            _ => Err(refused(reply)),
        },
    )
}

/// Whether a process has exited, and if so, whether successfully.
pub open spec fn ask_exit(t: Transcript, call: CallView) -> (
    Transcript,
    Result<Option<bool>, IoHalt>,
) {
    let (next, reply) = ask(t, call);
    (
        next,
        match reply {
            Some(ReplyView::Running) => Ok(None),
            Some(ReplyView::Exited(success)) => Ok(Some(success)),
            _ => Err(refused(reply)),
        },
    )
}

impl DeepView for Entry {
    type V = Entry;

    open spec fn deep_view(&self) -> Entry {
        *self
    }
}

impl Script {
    /// A script without calls and replies.
    pub fn new() -> (script: Script)
        ensures
            script.deep_view() == (Transcript { replies: Seq::empty(), calls: Seq::empty() }),
    {
        let script = Script { replies: Vec::new(), calls: Vec::new() };
        assert(script.replies.deep_view() =~= Seq::empty());
        assert(script.calls.deep_view() =~= Seq::empty());
        script
    }

    /// Adds the reply to the last call and rewinds the script.
    pub fn answer(&mut self, reply: Reply)
        ensures
            final(self).deep_view() == (Transcript {
                replies: old(self).deep_view().replies.push(reply.deep_view()),
                calls: Seq::empty(),
            }),
    {
        let ghost before = self.replies;
        self.replies.push(reply);
        self.calls = Vec::new();
        assert(self.replies.deep_view() =~= before.deep_view().push(reply.deep_view()));
        assert(self.calls.deep_view() =~= Seq::empty());
    }

    /// How many calls were asked for.
    pub fn len(&self) -> (n: usize)
        ensures
            n == self.deep_view().calls.len(),
    {
        self.calls.len()
    }

    /// The call at this place.
    pub fn call(&self, index: usize) -> (call: &Call)
        requires
            index < self.deep_view().calls.len(),
        ensures
            call.deep_view() == self.deep_view().calls[index as int],
    {
        &self.calls[index]
    }

    fn ask(&mut self, call: Call) -> (reply: Option<Reply>)
        ensures
            (final(self).deep_view(), reply.deep_view()) == ask(
                old(self).deep_view(),
                call.deep_view(),
            ),
    {
        let ghost before = self.calls;
        let at: usize = self.calls.len();
        self.calls.push(call);
        assert(self.calls.deep_view() =~= before.deep_view().push(call.deep_view()));
        if at < self.replies.len() {
            Some(self.replies[at].copy())
        } else {
            None
        }
    }

    fn refused(reply: Option<Reply>) -> (halt: Halt<IoError>)
        ensures
            halt.deep_view() == refused(reply.deep_view()),
    {
        match reply {
            None => Halt::Waiting,
            Some(Reply::Failed(error)) => Halt::Failed(error),
            Some(_) => Halt::Failed(
                IoError::new(IoKind::InvalidData, "Unexpected reply from the host"),
            ),
        }
    }

    /// Asks for a call whose reply does not matter. Whether it was answered.
    pub(crate) fn attempt(&mut self, call: Call) -> (answered: bool)
        ensures
            final(self).deep_view() == ask(old(self).deep_view(), call.deep_view()).0,
            answered == (ask(old(self).deep_view(), call.deep_view()).1 is Some),
    {
        self.ask(call).is_some()
    }

    pub(crate) fn done(&mut self, call: Call) -> (r: Result<(), Halt<IoError>>)
        ensures
            (final(self).deep_view(), outcome(r)) == ask_done(
                old(self).deep_view(),
                call.deep_view(),
            ),
    {
        match self.ask(call) {
            Some(Reply::Done) => Ok(()),
            reply => Err(Self::refused(reply)),
        }
    }

    pub(crate) fn flag(&mut self, call: Call) -> (r: Result<bool, Halt<IoError>>)
        ensures
            (final(self).deep_view(), outcome(r)) == ask_flag(
                old(self).deep_view(),
                call.deep_view(),
            ),
    {
        match self.ask(call) {
            Some(Reply::Flag(flag)) => Ok(flag),
            reply => Err(Self::refused(reply)),
        }
    }

    pub(crate) fn number(&mut self, call: Call) -> (r: Result<u64, Halt<IoError>>)
        ensures
            (final(self).deep_view(), outcome(r)) == ask_number(
                old(self).deep_view(),
                call.deep_view(),
            ),
    {
        match self.ask(call) {
            Some(Reply::Number(number)) => Ok(number),
            reply => Err(Self::refused(reply)),
        }
    }

    pub(crate) fn text(&mut self, call: Call) -> (r: Result<String, Halt<IoError>>)
        ensures
            (final(self).deep_view(), outcome(r)) == ask_text(
                old(self).deep_view(),
                call.deep_view(),
            ),
    {
        match self.ask(call) {
            Some(Reply::Text(text)) => Ok(text),
            reply => Err(Self::refused(reply)),
        }
    }

    pub(crate) fn variable(&mut self, name: &str) -> (r: Result<Option<String>, Halt<IoError>>)
        ensures
            (final(self).deep_view(), outcome(r)) == ask_variable(
                old(self).deep_view(),
                CallView::Variable(name@),
            ),
    {
        match self.ask(Call::Variable(name.to_owned())) {
            Some(Reply::Text(text)) => Ok(Some(text)),
            Some(Reply::Unset) => Ok(None),
            reply => Err(Self::refused(reply)),
        }
    }

    pub(crate) fn bytes(&mut self, call: Call) -> (r: Result<Vec<u8>, Halt<IoError>>)
        ensures
            (final(self).deep_view(), outcome(r)) == ask_bytes(
                old(self).deep_view(),
                call.deep_view(),
            ),
    {
        broadcast use bytes::bytes_deep_view;

        match self.ask(call) {
            Some(Reply::Bytes(data)) => Ok(data),
            reply => Err(Self::refused(reply)),
        }
    }

    pub(crate) fn entry(&mut self, call: Call) -> (r: Result<Entry, Halt<IoError>>)
        ensures
            (final(self).deep_view(), outcome(r)) == ask_entry(
                old(self).deep_view(),
                call.deep_view(),
            ),
    {
        match self.ask(call) {
            Some(Reply::Entry(entry)) => Ok(entry),
            reply => Err(Self::refused(reply)),
        }
    }

    pub(crate) fn exit(&mut self, call: Call) -> (r: Result<Option<bool>, Halt<IoError>>)
        ensures
            (final(self).deep_view(), outcome(r)) == ask_exit(
                old(self).deep_view(),
                call.deep_view(),
            ),
    {
        match self.ask(call) {
            Some(Reply::Running) => Ok(None),
            Some(Reply::Exited(success)) => Ok(Some(success)),
            reply => Err(Self::refused(reply)),
        }
    }

    /// Asks for something to be done at a path.
    pub(crate) fn path_done(&mut self, action: PathAction, path: &str) -> (r: Result<
        (),
        Halt<IoError>,
    >)
        ensures
            (final(self).deep_view(), outcome(r)) == ask_done(
                old(self).deep_view(),
                CallView::Path(action, path@),
            ),
    {
        self.done(Call::Path(action, path.to_owned()))
    }

    /// Asks whether something holds of a path.
    pub(crate) fn path_flag(&mut self, action: PathAction, path: &str) -> (r: Result<
        bool,
        Halt<IoError>,
    >)
        ensures
            (final(self).deep_view(), outcome(r)) == ask_flag(
                old(self).deep_view(),
                CallView::Path(action, path@),
            ),
    {
        self.flag(Call::Path(action, path.to_owned()))
    }
}

} // verus!
