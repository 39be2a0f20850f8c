//! One packaging run, as a machine that asks and is answered.
//!
//! The machine decides what a run does next; it opens, lists and reads nothing
//! itself. It holds one request at a time. The caller carries the request out
//! and answers with the event that tells what came of it; the answer makes the
//! next request. The run is over when the request is `Done`.
//!
//! The include entries are taken first, in their order. Each is expanded as a
//! glob pattern; a match that is a file is written as it is, one that is a
//! directory is walked with itself as the base of the ignore patterns. Then the
//! input directory is walked, unless it is `.` or missing. A walk leaves out
//! each entry that an ignore pattern excludes, and with it all that lies below.

use crate::block::{file_block, write_file_to_output};
use crate::config::PackagerConfig;
use crate::error::{Failure, PackError, PackErrorView, Scope};
use crate::matcher::{
    all_compile,
    compile_patterns,
    glob_compiles,
    is_excluded,
    pattern_texts,
    should_ignore,
};
use crate::rules::texts;
use glob::Pattern;
use vstd::prelude::*;

verus! {

/// What a path names on disk.
#[derive(Debug, Clone, Copy, PartialEq, Eq, Structural)]
pub enum PathKind {
    /// Nothing is there.
    Missing,
    /// A directory.
    Directory,
    /// A regular file.
    File,
    /// Something that is neither.
    Other,
}

/// What the machine asks its caller to do.
#[derive(Debug)]
pub enum Request {
    /// Create the output file at `path`, empty. Answer: `Succeeded` or `Failed`.
    Create { path: String },
    /// Expand the glob pattern `pattern` against the file system. Answer:
    /// `Found` with the matches in the order they come, up to the first that
    /// cannot be read; or `Failed` where the pattern is refused.
    Expand { pattern: String },
    /// Tell what `path` names. Answer: `Kind`.
    Probe { path: String },
    /// List the entries of the directory `dir`, each as `dir` joined with its
    /// name. Answer: `Found` with the entries in the order they come, up to the
    /// first that cannot be read; or `Failed` where `dir` cannot be listed.
    List { dir: String },
    /// Read the file at `path` as text. Answer: `Content` or `Failed`.
    Read { path: String },
    /// Append `text`, the block of the file at `path`, to the output file.
    /// Answer: `Succeeded` or `Failed`.
    Write { path: String, text: String },
    /// Nothing more: the run has ended as `outcome` says.
    Done { outcome: Result<(), PackError> },
}

/// What came of a request.
#[derive(Debug)]
pub enum Event {
    /// The request was carried out.
    Succeeded,
    /// The request could not be carried out.
    Failed,
    /// What the probed path names.
    Kind(PathKind),
    /// The paths that an expansion or a listing gave. `complete` is false where
    /// an error cut it short: `paths` then holds what came before the error.
    Found { paths: Vec<String>, complete: bool },
    /// The text of the file that was read.
    Content(String),
}

/// Work that waits for its turn.
#[derive(Debug)]
pub enum Task {
    /// Walk the input directory, if it is there.
    Input(String),
    /// Expand an include entry.
    Expand(String),
    /// Look at a match of an include entry.
    Candidate(String),
    /// End the run: the expansion of this include entry was cut short.
    BrokenExpansion(String),
    /// Look at an entry of a walked directory that no pattern excludes.
    Entry(String),
    /// End the run: the listing of this directory was cut short.
    BrokenListing(String),
}

/// Whose probe is under way.
#[derive(Debug, Clone, Copy, PartialEq, Eq, Structural)]
pub enum Origin {
    /// A match of an include entry.
    Candidate,
    /// An entry of a walked directory.
    Entry,
    /// The input directory.
    Input,
}

/// A request, with texts in place of strings.
pub enum RequestView {
    Create { path: Seq<char> },
    Expand { pattern: Seq<char> },
    Probe { path: Seq<char> },
    List { dir: Seq<char> },
    Read { path: Seq<char> },
    Write { path: Seq<char>, text: Seq<char> },
    Done { outcome: Result<(), PackErrorView> },
}

/// An event, with texts in place of strings.
pub enum EventView {
    Succeeded,
    Failed,
    Kind(PathKind),
    Found { paths: Seq<Seq<char>>, complete: bool },
    Content(Seq<char>),
}

/// A task, with a text in place of the string.
pub enum TaskView {
    Input(Seq<char>),
    Expand(Seq<char>),
    Candidate(Seq<char>),
    BrokenExpansion(Seq<char>),
    Entry(Seq<char>),
    BrokenListing(Seq<char>),
}

impl View for Request {
    type V = RequestView;

    open spec fn view(&self) -> RequestView {
        match *self {
            Request::Create { path } => RequestView::Create { path: path@ },
            Request::Expand { pattern } => RequestView::Expand { pattern: pattern@ },
            Request::Probe { path } => RequestView::Probe { path: path@ },
            Request::List { dir } => RequestView::List { dir: dir@ },
            Request::Read { path } => RequestView::Read { path: path@ },
            Request::Write { path, text } => RequestView::Write { path: path@, text: text@ },
            Request::Done { outcome } => RequestView::Done {
                outcome: match outcome {
                    Ok(_) => Ok(()),
                    Err(error) => Err(error@),
                },
            },
        }
    }
}

impl View for Event {
    type V = EventView;

    open spec fn view(&self) -> EventView {
        match *self {
            Event::Succeeded => EventView::Succeeded,
            Event::Failed => EventView::Failed,
            Event::Kind(kind) => EventView::Kind(kind),
            Event::Found { paths, complete } => EventView::Found { paths: texts(paths@), complete },
            Event::Content(text) => EventView::Content(text@),
        }
    }
}

impl View for Task {
    type V = TaskView;

    open spec fn view(&self) -> TaskView {
        match *self {
            Task::Input(dir) => TaskView::Input(dir@),
            Task::Expand(pattern) => TaskView::Expand(pattern@),
            Task::Candidate(path) => TaskView::Candidate(path@),
            Task::BrokenExpansion(pattern) => TaskView::BrokenExpansion(pattern@),
            Task::Entry(path) => TaskView::Entry(path@),
            Task::BrokenListing(dir) => TaskView::BrokenListing(dir@),
        }
    }
}

/// The views of a stack of tasks.
pub open spec fn task_views(tasks: Seq<Task>) -> Seq<TaskView> {
    Seq::new(tasks.len(), |i: int| tasks[i]@)
}

/// What a run has in hand between two requests.
pub struct WorkView {
    /// The texts of the ignore patterns.
    pub patterns: Seq<Seq<char>>,
    /// The work that waits, the next on top: at the end.
    pub pending: Seq<TaskView>,
    /// Whose probe is under way, where the request is a probe.
    pub origin: Origin,
    /// The part of the configuration being worked through.
    pub scope: Scope,
    /// The include match or input directory being worked through: the base of
    /// the ignore patterns.
    pub root: Seq<char>,
}

/// A run: what it has in hand, and what it asks.
pub struct RunView {
    pub work: WorkView,
    pub request: RequestView,
}

/// The tasks for the matches of an include entry, the first match on top.
pub open spec fn candidate_tasks(paths: Seq<Seq<char>>) -> Seq<TaskView> {
    Seq::new(paths.len(), |i: int| TaskView::Candidate(paths[paths.len() - 1 - i]))
}

/// The tasks for the include entries, the first entry on top.
pub open spec fn expand_tasks(entries: Seq<Seq<char>>) -> Seq<TaskView> {
    Seq::new(entries.len(), |i: int| TaskView::Expand(entries[entries.len() - 1 - i]))
}

/// The test that a walk under `base` puts to an entry: that no pattern excludes
/// it.
pub open spec fn keeps(patterns: Seq<Seq<char>>, base: Seq<char>) -> spec_fn(Seq<char>) -> bool {
    |path: Seq<char>| !is_excluded(patterns, path, base)
}

/// The entries of a listing that a walk goes into: those that no pattern
/// excludes, in the order of the listing.
pub open spec fn kept_entries(
    paths: Seq<Seq<char>>,
    patterns: Seq<Seq<char>>,
    base: Seq<char>,
) -> Seq<Seq<char>> {
    paths.filter(keeps(patterns, base))
}

/// The tasks for the entries that a walk goes into, the first entry on top.
pub open spec fn entry_tasks(kept: Seq<Seq<char>>) -> Seq<TaskView> {
    Seq::new(kept.len(), |i: int| TaskView::Entry(kept[kept.len() - 1 - i]))
}

/// The run ended by a failure on `subject`, within what was being worked
/// through.
pub open spec fn failed(work: WorkView, failure: Failure, subject: Seq<char>) -> RunView {
    RunView {
        work,
        request: RequestView::Done {
            outcome: Err(PackErrorView { failure, subject, scope: work.scope, root: work.root }),
        },
    }
}

/// The run as it takes up the next task that waits, or ends well where none
/// does.
pub open spec fn advance(work: WorkView) -> RunView {
    if work.pending.len() == 0 {
        RunView { work, request: RequestView::Done { outcome: Ok(()) } }
    } else {
        let rest = WorkView { pending: work.pending.drop_last(), ..work };
        let outside = WorkView { scope: Scope::Setup, root: Seq::empty(), ..rest };
        match work.pending.last() {
            TaskView::Input(dir) => RunView {
                work: WorkView { origin: Origin::Input, ..rest },
                request: RequestView::Probe { path: dir },
            },
            TaskView::Expand(pattern) => RunView {
                work: outside,
                request: RequestView::Expand { pattern },
            },
            TaskView::Candidate(path) => RunView {
                work: WorkView { origin: Origin::Candidate, ..rest },
                request: RequestView::Probe { path },
            },
            TaskView::BrokenExpansion(pattern) => failed(outside, Failure::GlobEntry, pattern),
            TaskView::Entry(path) => RunView {
                work: WorkView { origin: Origin::Entry, ..rest },
                request: RequestView::Probe { path },
            },
            TaskView::BrokenListing(dir) => failed(rest, Failure::ReadEntry, dir),
        }
    }
}

/// The run once it knows what the probed `path` names. A match of an include
/// entry is walked or written whatever the ignore patterns say, and is passed
/// over where it is neither directory nor file. So is an entry of a walked
/// directory. The input directory is walked if anything is there.
pub open spec fn probed(work: WorkView, path: Seq<char>, kind: PathKind) -> RunView {
    match work.origin {
        Origin::Candidate => match kind {
            PathKind::Directory => RunView {
                work: WorkView { scope: Scope::ExtraDirectory, root: path, ..work },
                request: RequestView::List { dir: path },
            },
            PathKind::File => RunView {
                work: WorkView { scope: Scope::ExtraFile, root: path, ..work },
                request: RequestView::Read { path },
            },
            _ => advance(work),
        },
        Origin::Entry => match kind {
            PathKind::Directory => RunView { work, request: RequestView::List { dir: path } },
            PathKind::File => RunView { work, request: RequestView::Read { path } },
            _ => advance(work),
        },
        Origin::Input => match kind {
            PathKind::Missing => advance(work),
            _ => RunView {
                work: WorkView { scope: Scope::InputDirectory, root: path, ..work },
                request: RequestView::List { dir: path },
            },
        },
    }
}

/// What is put on the stack where an expansion or a listing was cut short.
pub open spec fn broken(complete: bool, task: TaskView) -> Seq<TaskView> {
    if complete {
        Seq::empty()
    } else {
        seq![task]
    }
}

/// The run after `event` answers its request. An event that does not answer
/// the request changes nothing, and nothing changes a run that is done.
pub open spec fn step(run: RunView, event: EventView) -> RunView {
    let work = run.work;
    match (run.request, event) {
        (RequestView::Create { path }, EventView::Succeeded) => advance(work),
        (RequestView::Create { path }, EventView::Failed) => failed(
            work,
            Failure::CreateOutput,
            path,
        ),
        (RequestView::Expand { pattern }, EventView::Failed) => failed(
            work,
            Failure::FilePattern,
            pattern,
        ),
        (RequestView::Expand { pattern }, EventView::Found { paths, complete }) => advance(
            WorkView {
                pending: work.pending + broken(complete, TaskView::BrokenExpansion(pattern))
                    + candidate_tasks(paths),
                ..work
            },
        ),
        (RequestView::Probe { path }, EventView::Kind(kind)) => probed(work, path, kind),
        (RequestView::List { dir }, EventView::Failed) => failed(
            work,
            Failure::ReadDirectory,
            dir,
        ),
        (RequestView::List { dir }, EventView::Found { paths, complete }) => advance(
            WorkView {
                pending: work.pending + broken(complete, TaskView::BrokenListing(dir))
                    + entry_tasks(kept_entries(paths, work.patterns, work.root)),
                ..work
            },
        ),
        (RequestView::Read { path }, EventView::Failed) => failed(work, Failure::ReadFile, path),
        (RequestView::Read { path }, EventView::Content(text)) => RunView {
            work,
            request: RequestView::Write { path, text: file_block(path, text) },
        },
        (RequestView::Write { path, text }, EventView::Succeeded) => advance(work),
        (RequestView::Write { path, text }, EventView::Failed) => failed(
            work,
            Failure::WriteOutput,
            path,
        ),
        _ => run,
    }
}

/// The position of the first text among `patterns` that does not compile.
#[verifier::opaque]
pub open spec fn first_refused(patterns: Seq<Seq<char>>) -> int {
    choose|i: int|
        0 <= i < patterns.len() && !glob_compiles(patterns[i]) && all_compile(patterns.take(i))
}

/// A text that does not compile, with none such before it, is the first
/// refused.
pub proof fn lemma_first_refused(patterns: Seq<Seq<char>>, first: int)
    requires
        0 <= first < patterns.len(),
        !glob_compiles(patterns[first]),
        all_compile(patterns.take(first)),
    ensures
        first_refused(patterns) == first,
{
    reveal(first_refused);
    let chosen = first_refused(patterns);
    if chosen < first {
        assert(patterns.take(first)[chosen] == patterns[chosen]);
    } else if first < chosen {
        assert(patterns.take(chosen)[first] == patterns[first]);
    }
}

/// The task for the input directory: none where it is `.`.
pub open spec fn input_task(input_dir: Seq<char>) -> Seq<TaskView> {
    if input_dir == seq!['.'] {
        Seq::empty()
    } else {
        seq![TaskView::Input(input_dir)]
    }
}

/// The run as it begins. Where an ignore pattern does not compile, it is over
/// at once, before anything is asked for. Else it asks for the output file,
/// with the include entries waiting in their order and the input directory
/// after them.
pub open spec fn begin(
    input_dir: Seq<char>,
    output_file: Seq<char>,
    includes: Seq<Seq<char>>,
    ignores: Seq<Seq<char>>,
) -> RunView {
    let idle = WorkView {
        patterns: Seq::empty(),
        pending: Seq::empty(),
        origin: Origin::Input,
        scope: Scope::Setup,
        root: Seq::empty(),
    };
    if all_compile(ignores) {
        RunView {
            work: WorkView {
                patterns: ignores,
                pending: input_task(input_dir) + expand_tasks(includes),
                ..idle
            },
            request: RequestView::Create { path: output_file },
        }
    } else {
        failed(idle, Failure::IgnorePattern, ignores[first_refused(ignores)])
    }
}

/// Whether a task belongs to the walk of a directory.
pub open spec fn is_walk_task(task: TaskView) -> bool {
    task is Entry || task is BrokenListing
}

/// Whether no task of a walk waits.
pub open spec fn no_walk_waits(pending: Seq<TaskView>) -> bool {
    forall|i: int| 0 <= i < pending.len() ==> !is_walk_task(#[trigger] pending[i])
}

/// Whether a walk may touch `path`: it is the directory or file that the walk
/// set out from, or no ignore pattern excludes it under that base.
pub open spec fn admitted(work: WorkView, path: Seq<char>) -> bool {
    path == work.root || !is_excluded(work.patterns, path, work.root)
}

/// Whether the work that waits is in order: each entry of a walk that waits is
/// one that no pattern excludes, and the tasks of the walk under way lie on top
/// of all others.
pub open spec fn pending_clean(work: WorkView) -> bool {
    &&& forall|i: int|
        0 <= i < work.pending.len() ==> (#[trigger] work.pending[i] matches TaskView::Entry(path)
            ==> !is_excluded(work.patterns, path, work.root))
    &&& forall|i: int, j: int|
        0 <= i < j < work.pending.len() && is_walk_task(#[trigger] work.pending[i])
            ==> is_walk_task(#[trigger] work.pending[j])
}

/// Whether a run keeps clear of what the ignore patterns exclude: the work
/// that waits is in order, an entry of a walk is probed only where no pattern
/// excludes it, and a directory is listed or a file read or written only where
/// it is admitted.
pub open spec fn clean(run: RunView) -> bool {
    &&& pending_clean(run.work)
    &&& match run.request {
        RequestView::Create { path } => no_walk_waits(run.work.pending),
        RequestView::Expand { pattern } => no_walk_waits(run.work.pending),
        RequestView::Probe { path } => match run.work.origin {
            Origin::Entry => !is_excluded(run.work.patterns, path, run.work.root),
            _ => no_walk_waits(run.work.pending),
        },
        RequestView::List { dir } => admitted(run.work, dir),
        RequestView::Read { path } => admitted(run.work, path),
        RequestView::Write { path, text } => admitted(run.work, path),
        RequestView::Done { outcome } => true,
    }
}

/// Taking up the next task keeps a run clear of what is excluded.
pub proof fn lemma_advance_clean(work: WorkView)
    requires
        pending_clean(work),
    ensures
        clean(advance(work)),
{
    if work.pending.len() > 0 {
        let top = work.pending.len() - 1;
        let rest = work.pending.drop_last();
        assert(forall|i: int| 0 <= i < rest.len() ==> rest[i] == work.pending[i]);
        if !is_walk_task(work.pending[top]) {
            assert forall|i: int| 0 <= i < rest.len() implies !is_walk_task(#[trigger] rest[i]) by {
                assert(rest[i] == work.pending[i]);
            }
        }
    }
}

/// Whatever answer a run is given, it stays clear of what the ignore patterns
/// exclude: an entry that a pattern excludes is never probed, and a directory
/// is listed, or a file read or written, only where it is the one the walk set
/// out from or no pattern excludes it. An excluded directory is thus never
/// listed, and the entries of a walk come from listings alone.
pub proof fn lemma_step_clean(run: RunView, event: EventView)
    requires
        clean(run),
    ensures
        clean(step(run, event)),
{
    let work = run.work;
    match (run.request, event) {
        (RequestView::Create { path }, EventView::Succeeded) => {
            lemma_advance_clean(work);
        },
        (RequestView::Expand { pattern }, EventView::Found { paths, complete }) => {
            let grown = WorkView {
                pending: work.pending + broken(complete, TaskView::BrokenExpansion(pattern))
                    + candidate_tasks(paths),
                ..work
            };
            assert forall|i: int| 0 <= i < grown.pending.len() implies !is_walk_task(
                #[trigger] grown.pending[i],
            ) by {
                if i < work.pending.len() {
                    assert(grown.pending[i] == work.pending[i]);
                }
            }
            lemma_advance_clean(grown);
        },
        (RequestView::Probe { path }, EventView::Kind(kind)) => {
            lemma_advance_clean(work);
        },
        (RequestView::List { dir }, EventView::Found { paths, complete }) => {
            let kept = kept_entries(paths, work.patterns, work.root);
            let split = work.pending.len() as int;
            let grown = WorkView {
                pending: work.pending + broken(complete, TaskView::BrokenListing(dir))
                    + entry_tasks(kept),
                ..work
            };
            assert forall|i: int| 0 <= i < grown.pending.len() implies (
            #[trigger] grown.pending[i] matches TaskView::Entry(path) ==> !is_excluded(
                grown.patterns,
                path,
                grown.root,
            )) by {
                if i < split {
                    assert(grown.pending[i] == work.pending[i]);
                } else if grown.pending[i] is Entry {
                    let at = i - split - broken(complete, TaskView::BrokenListing(dir)).len();
                    paths.lemma_filter_pred(keeps(work.patterns, work.root), kept.len() - 1 - at);
                }
            }
            assert forall|i: int, j: int|
                0 <= i < j < grown.pending.len() && is_walk_task(
                    #[trigger] grown.pending[i],
                ) implies is_walk_task(#[trigger] grown.pending[j]) by {
                if j < split {
                    assert(grown.pending[i] == work.pending[i]);
                    assert(grown.pending[j] == work.pending[j]);
                }
            }
            lemma_advance_clean(grown);
        },
        (RequestView::Write { path, text }, EventView::Succeeded) => {
            lemma_advance_clean(work);
        },
        _ => {},
    }
}

/// A run begins clear of what the ignore patterns exclude. With
/// `lemma_step_clean`: it is so after any answers.
pub proof fn lemma_begin_clean(
    input_dir: Seq<char>,
    output_file: Seq<char>,
    includes: Seq<Seq<char>>,
    ignores: Seq<Seq<char>>,
)
    ensures
        clean(begin(input_dir, output_file, includes, ignores)),
{
    if all_compile(ignores) {
        let pending = input_task(input_dir) + expand_tasks(includes);
        assert forall|i: int| 0 <= i < pending.len() implies !is_walk_task(
            #[trigger] pending[i],
        ) by {
            if i >= input_task(input_dir).len() {
                assert(pending[i] == expand_tasks(includes)[i - input_task(input_dir).len()]);
            }
        }
    } else {
        let idle = begin(input_dir, output_file, includes, ignores).work;
        assert(idle.pending.len() == 0);
    }
}

/// The run after a row of events, each taken as the answer to the request
/// that stood before it.
pub open spec fn after(run: RunView, events: Seq<EventView>) -> RunView
    decreases events.len(),
{
    if events.len() == 0 {
        run
    } else {
        step(after(run, events.drop_last()), events.last())
    }
}

/// The document that a run has written after a row of events: the texts of
/// the writes that were answered as carried out, in their order.
pub open spec fn document(run: RunView, events: Seq<EventView>) -> Seq<char>
    decreases events.len(),
{
    if events.len() == 0 {
        Seq::<char>::empty()
    } else {
        let earlier = events.drop_last();
        document(run, earlier) + match (after(run, earlier).request, events.last()) {
            (RequestView::Write { path, text }, EventView::Succeeded) => text,
            _ => Seq::<char>::empty(),
        }
    }
}

/// A run that began clear of what is excluded is so after any row of events.
pub proof fn lemma_after_clean(run: RunView, events: Seq<EventView>)
    requires
        clean(run),
    ensures
        clean(after(run, events)),
    decreases events.len(),
{
    if events.len() > 0 {
        lemma_after_clean(run, events.drop_last());
        lemma_step_clean(after(run, events.drop_last()), events.last());
    }
}

/// Two runs of one configuration that are given the same answers make the same
/// requests and write the same document.
pub proof fn lemma_same_answers_same_document(
    first: RunView,
    second: RunView,
    first_events: Seq<EventView>,
    second_events: Seq<EventView>,
)
    requires
        first == second,
        first_events == second_events,
    ensures
        after(first, first_events) == after(second, second_events),
        document(first, first_events) == document(second, second_events),
{
}

/// What a run has in hand between two requests.
struct Work {
    patterns: Vec<Pattern>,
    pending: Vec<Task>,
    origin: Origin,
    scope: Scope,
    root: String,
}

impl View for Work {
    type V = WorkView;

    closed spec fn view(&self) -> WorkView {
        WorkView {
            patterns: pattern_texts(self.patterns@),
            pending: task_views(self.pending@),
            origin: self.origin,
            scope: self.scope,
            root: self.root@,
        }
    }
}

/// One packaging run.
pub struct Packager {
    work: Work,
    request: Request,
}

impl View for Packager {
    type V = RunView;

    closed spec fn view(&self) -> RunView {
        RunView { work: self.work@, request: self.request@ }
    }
}

/// Tells whether `text` is `.`, the name of the current directory.
fn is_current_dir(text: &str) -> (current: bool)
    ensures
        current == (text@ == seq!['.']),
{
    let current = text.unicode_len() == 1 && text.get_char(0) == '.';
    proof {
        if current {
            assert(text@ =~= seq!['.']);
        }
    }
    current
}

/// Puts a task for each match on the stack, the first match on top.
fn push_candidates(pending: &mut Vec<Task>, paths: Vec<String>)
    ensures
        task_views(final(pending)@) == task_views(old(pending)@) + candidate_tasks(
            texts(paths@),
        ),
{
    let ghost all = texts(paths@);
    let ghost below = task_views(pending@);
    let mut paths = paths;
    assert(task_views(pending@) =~= below + Seq::new(
        0,
        |i: int| TaskView::Candidate(all[all.len() - 1 - i]),
    ));
    while paths.len() > 0
        invariant
            paths@.len() <= all.len(),
            texts(paths@) == all.take(paths@.len() as int),
            task_views(pending@) == below + Seq::new(
                (all.len() - paths@.len()) as nat,
                |i: int| TaskView::Candidate(all[all.len() - 1 - i]),
            ),
        decreases paths.len(),
    {
        let ghost before = task_views(pending@);
        let ghost left = paths@;
        let path = paths.pop().unwrap();
        assert(path@ == texts(left)[left.len() - 1]);
        pending.push(Task::Candidate(path));
        assert(texts(paths@) =~= all.take(paths@.len() as int)) by {
            assert forall|j: int| 0 <= j < paths@.len() implies texts(paths@)[j] == all[j] by {
                assert(texts(left)[j] == all[j]);
            }
        }
        assert(task_views(pending@) =~= before.push(TaskView::Candidate(path@)));
        assert(task_views(pending@) =~= below + Seq::new(
            (all.len() - paths@.len()) as nat,
            |i: int| TaskView::Candidate(all[all.len() - 1 - i]),
        ));
    }
}

/// Putting an entry before a listing puts its task, if it is kept, on top of
/// those of the listing.
proof fn lemma_entry_tasks_prepend(
    path: Seq<char>,
    paths: Seq<Seq<char>>,
    patterns: Seq<Seq<char>>,
    base: Seq<char>,
)
    ensures
        entry_tasks(kept_entries(seq![path] + paths, patterns, base)) == if is_excluded(
            patterns,
            path,
            base,
        ) {
            entry_tasks(kept_entries(paths, patterns, base))
        } else {
            entry_tasks(kept_entries(paths, patterns, base)).push(TaskView::Entry(path))
        },
{
    paths.lemma_filter_prepend(path, keeps(patterns, base));
    let kept = kept_entries(paths, patterns, base);
    if is_excluded(patterns, path, base) {
        assert(Seq::<Seq<char>>::empty() + kept =~= kept);
    } else {
        assert(entry_tasks(seq![path] + kept) =~= entry_tasks(kept).push(TaskView::Entry(path)));
    }
}

/// Puts a task on the stack for each entry that no pattern excludes under
/// `base`, the first such entry on top.
fn push_entries(pending: &mut Vec<Task>, paths: Vec<String>, patterns: &Vec<Pattern>, base: &str)
    ensures
        task_views(final(pending)@) == task_views(old(pending)@) + entry_tasks(
            kept_entries(texts(paths@), pattern_texts(patterns@), base@),
        ),
{
    let ghost all = texts(paths@);
    let ghost below = task_views(pending@);
    let ghost rules = pattern_texts(patterns@);
    let mut paths = paths;
    proof {
        assert(all.skip(all.len() as int) =~= Seq::<Seq<char>>::empty());
        reveal(Seq::filter);
        assert(kept_entries(Seq::<Seq<char>>::empty(), rules, base@) =~= Seq::<Seq<char>>::empty());
        assert(task_views(pending@) =~= below + entry_tasks(
            kept_entries(all.skip(paths@.len() as int), rules, base@),
        ));
    }
    while paths.len() > 0
        invariant
            paths@.len() <= all.len(),
            rules == pattern_texts(patterns@),
            texts(paths@) == all.take(paths@.len() as int),
            task_views(pending@) == below + entry_tasks(
                kept_entries(all.skip(paths@.len() as int), rules, base@),
            ),
        decreases paths.len(),
    {
        let ghost before = task_views(pending@);
        let ghost left = paths@;
        let path = paths.pop().unwrap();
        proof {
            assert(path@ == texts(left)[left.len() - 1]);
            assert(texts(paths@) =~= all.take(paths@.len() as int)) by {
                assert forall|j: int| 0 <= j < paths@.len() implies texts(paths@)[j] == all[j] by {
                    assert(texts(left)[j] == all[j]);
                }
            }
            assert(all.skip(paths@.len() as int) =~= seq![path@] + all.skip(left.len() as int));
            lemma_entry_tasks_prepend(path@, all.skip(left.len() as int), rules, base@);
        }
        if !should_ignore(path.as_str(), patterns.as_slice(), base) {
            pending.push(Task::Entry(path));
            assert(task_views(pending@) =~= before.push(TaskView::Entry(path@)));
        }
        assert(task_views(pending@) =~= below + entry_tasks(
            kept_entries(all.skip(paths@.len() as int), rules, base@),
        ));
    }
    assert(all.skip(0) =~= all);
}

impl Work {
    /// Ends the run by a failure on `subject`.
    fn fail(self, failure: Failure, subject: String) -> (next: Packager)
        ensures
            next@ == failed(self@, failure, subject@),
    {
        let root = self.root.clone();
        let error = PackError { failure, subject, scope: self.scope, root };
        Packager { work: self, request: Request::Done { outcome: Err(error) } }
    }

    /// Takes up the next task that waits, or ends the run well.
    fn advance(self) -> (next: Packager)
        ensures
            next@ == advance(self@),
    {
        let Work { patterns, mut pending, origin, scope, root } = self;
        let ghost waiting = pending@;
        match pending.pop() {
            None => Packager {
                work: Work { patterns, pending, origin, scope, root },
                request: Request::Done { outcome: Ok(()) },
            },
            Some(task) => {
                assert(task_views(pending@) =~= task_views(waiting).drop_last());
                assert(task@ == task_views(waiting).last());
                match task {
                    Task::Input(dir) => Packager {
                        work: Work { patterns, pending, origin: Origin::Input, scope, root },
                        request: Request::Probe { path: dir },
                    },
                    Task::Expand(pattern) => Packager {
                        work: Work {
                            patterns,
                            pending,
                            origin,
                            scope: Scope::Setup,
                            root: String::new(),
                        },
                        request: Request::Expand { pattern },
                    },
                    Task::Candidate(path) => Packager {
                        work: Work { patterns, pending, origin: Origin::Candidate, scope, root },
                        request: Request::Probe { path },
                    },
                    Task::BrokenExpansion(pattern) => Work {
                        patterns,
                        pending,
                        origin,
                        scope: Scope::Setup,
                        root: String::new(),
                    }.fail(Failure::GlobEntry, pattern),
                    Task::Entry(path) => Packager {
                        work: Work { patterns, pending, origin: Origin::Entry, scope, root },
                        request: Request::Probe { path },
                    },
                    Task::BrokenListing(dir) => Work {
                        patterns,
                        pending,
                        origin,
                        scope,
                        root,
                    }.fail(Failure::ReadEntry, dir),
                }
            },
        }
    }

    /// Goes on from what the probed `path` names.
    fn probed(self, path: String, kind: PathKind) -> (next: Packager)
        ensures
            next@ == probed(self@, path@, kind),
    {
        let Work { patterns, pending, origin, scope, root } = self;
        match origin {
            Origin::Candidate => match kind {
                PathKind::Directory => {
                    let dir = path.clone();
                    Packager {
                        work: Work {
                            patterns,
                            pending,
                            origin,
                            scope: Scope::ExtraDirectory,
                            root: path,
                        },
                        request: Request::List { dir },
                    }
                },
                PathKind::File => {
                    let file = path.clone();
                    Packager {
                        work: Work { patterns, pending, origin, scope: Scope::ExtraFile, root: path },
                        request: Request::Read { path: file },
                    }
                },
                _ => Work { patterns, pending, origin, scope, root }.advance(),
            },
            Origin::Entry => match kind {
                PathKind::Directory => Packager {
                    work: Work { patterns, pending, origin, scope, root },
                    request: Request::List { dir: path },
                },
                PathKind::File => Packager {
                    work: Work { patterns, pending, origin, scope, root },
                    request: Request::Read { path },
                },
                _ => Work { patterns, pending, origin, scope, root }.advance(),
            },
            Origin::Input => match kind {
                PathKind::Missing => Work { patterns, pending, origin, scope, root }.advance(),
                _ => {
                    let dir = path.clone();
                    Packager {
                        work: Work {
                            patterns,
                            pending,
                            origin,
                            scope: Scope::InputDirectory,
                            root: path,
                        },
                        request: Request::List { dir },
                    }
                },
            },
        }
    }
}

impl Packager {
    /// Begins a run. Nothing has been asked of the file system yet: the first
    /// request is to create the output file, unless an ignore pattern does not
    /// compile, which ends the run at once with the first such pattern as the
    /// subject of the failure.
    pub fn new(config: &PackagerConfig) -> (packager: Packager)
        ensures
            packager@ == begin(
                config.input_dir@,
                config.output_file@,
                texts(config.extra_files@),
                texts(config.ignore_patterns@),
            ),
    {
        let ghost ignores = texts(config.ignore_patterns@);
        let ghost includes = texts(config.extra_files@);
        match compile_patterns(&config.ignore_patterns) {
            Err(first) => {
                proof {
                    lemma_first_refused(ignores, first as int);
                }
                let idle = Work {
                    patterns: Vec::new(),
                    pending: Vec::new(),
                    origin: Origin::Input,
                    scope: Scope::Setup,
                    root: String::new(),
                };
                assert(idle@.patterns =~= Seq::<Seq<char>>::empty());
                assert(idle@.pending =~= Seq::<TaskView>::empty());
                idle.fail(Failure::IgnorePattern, config.ignore_patterns[first].clone())
            },
            Ok(patterns) => {
                let mut pending: Vec<Task> = Vec::new();
                if !is_current_dir(config.input_dir.as_str()) {
                    pending.push(Task::Input(config.input_dir.clone()));
                }
                assert(task_views(pending@) =~= input_task(config.input_dir@));
                let mut i: usize = config.extra_files.len();
                assert(task_views(pending@) =~= input_task(config.input_dir@) + Seq::new(
                    0,
                    |k: int| TaskView::Expand(includes[includes.len() - 1 - k]),
                ));
                while i > 0
                    invariant
                        i <= config.extra_files.len(),
                        includes == texts(config.extra_files@),
                        task_views(pending@) == input_task(config.input_dir@) + Seq::new(
                            (includes.len() - i) as nat,
                            |k: int| TaskView::Expand(includes[includes.len() - 1 - k]),
                        ),
                    decreases i,
                {
                    let ghost before = task_views(pending@);
                    i -= 1;
                    let entry = config.extra_files[i].clone();
                    pending.push(Task::Expand(entry));
                    assert(task_views(pending@) =~= before.push(TaskView::Expand(includes[i as int])));
                    assert(task_views(pending@) =~= input_task(config.input_dir@) + Seq::new(
                        (includes.len() - i) as nat,
                        |k: int| TaskView::Expand(includes[includes.len() - 1 - k]),
                    ));
                }
                assert(task_views(pending@) =~= input_task(config.input_dir@) + expand_tasks(
                    includes,
                ));
                Packager {
                    work: Work {
                        patterns,
                        pending,
                        origin: Origin::Input,
                        scope: Scope::Setup,
                        root: String::new(),
                    },
                    request: Request::Create { path: config.output_file.clone() },
                }
            },
        }
    }

    /// What the caller is asked to do next.
    pub fn request(&self) -> (request: &Request)
        ensures
            request@ == self@.request,
    {
        &self.request
    }

    /// Takes the answer to the request and makes the next request.
    pub fn answer(self, event: Event) -> (next: Packager)
        ensures
            next@ == step(self@, event@),
    {
        let Packager { work, request } = self;
        match request {
            Request::Create { path } => match event {
                Event::Succeeded => work.advance(),
                Event::Failed => work.fail(Failure::CreateOutput, path),
                _ => Packager { work, request: Request::Create { path } },
            },
            Request::Expand { pattern } => match event {
                Event::Failed => work.fail(Failure::FilePattern, pattern),
                Event::Found { paths, complete } => {
                    let Work { patterns, mut pending, origin, scope, root } = work;
                    let ghost waiting = task_views(pending@);
                    if !complete {
                        pending.push(Task::BrokenExpansion(pattern));
                    }
                    assert(task_views(pending@) =~= waiting + broken(
                        complete,
                        TaskView::BrokenExpansion(pattern@),
                    ));
                    push_candidates(&mut pending, paths);
                    Work { patterns, pending, origin, scope, root }.advance()
                },
                _ => Packager { work, request: Request::Expand { pattern } },
            },
            Request::Probe { path } => match event {
                Event::Kind(kind) => work.probed(path, kind),
                _ => Packager { work, request: Request::Probe { path } },
            },
            Request::List { dir } => match event {
                Event::Failed => work.fail(Failure::ReadDirectory, dir),
                Event::Found { paths, complete } => {
                    let Work { patterns, mut pending, origin, scope, root } = work;
                    let ghost waiting = task_views(pending@);
                    if !complete {
                        pending.push(Task::BrokenListing(dir));
                    }
                    assert(task_views(pending@) =~= waiting + broken(
                        complete,
                        TaskView::BrokenListing(dir@),
                    ));
                    push_entries(&mut pending, paths, &patterns, root.as_str());
                    Work { patterns, pending, origin, scope, root }.advance()
                },
                _ => Packager { work, request: Request::List { dir } },
            },
            Request::Read { path } => match event {
                Event::Failed => work.fail(Failure::ReadFile, path),
                Event::Content(content) => {
                    let mut text = String::new();
                    write_file_to_output(path.as_str(), content.as_str(), &mut text);
                    assert(text@ =~= file_block(path@, content@));
                    Packager { work, request: Request::Write { path, text } }
                },
                _ => Packager { work, request: Request::Read { path } },
            },
            Request::Write { path, text } => match event {
                Event::Succeeded => work.advance(),
                Event::Failed => work.fail(Failure::WriteOutput, path),
                _ => Packager { work, request: Request::Write { path, text } },
            },
            Request::Done { outcome } => Packager { work, request: Request::Done { outcome } },
        }
    }
}

} // verus!
