//! Where the launcher looks for the programs it starts.
//!
//! A search asks one question about the filesystem at a time; whoever runs it
//! answers, until the program is found or there is nowhere left to look.

use crate::path::{
    join, joined, opt_path, parent, parent_of, path_copy, path_list, same_bytes,
};
use crate::text::{lossy_text, lossy_utf8};
use vstd::prelude::*;
use vstd::string::*;
use vstd::utf8::encode_utf8;

verus! {

/// What separates the directories of $PATH.
pub const COLON: u8 = 58;

/// What a directory entry is, once links have been followed.
#[derive(Debug, Clone, Copy, PartialEq, Eq, Structural)]
pub enum EntryKind {
    File,
    Directory,
    Other,
}

/// What an entry is, given whether there is a file at its path and whether there
/// is a directory.
pub fn entry_kind(is_file: bool, is_dir: bool) -> (res: EntryKind)
    ensures
        res == (if is_file {
            EntryKind::File
        } else if is_dir {
            EntryKind::Directory
        } else {
            EntryKind::Other
        }),
{
    if is_file {
        EntryKind::File
    } else if is_dir {
        EntryKind::Directory
    } else {
        EntryKind::Other
    }
}

/// An entry of a directory that was listed.
#[derive(Debug)]
pub struct DirEntry {
    pub name: Vec<u8>,
    pub kind: EntryKind,
}

/// What a [`DirEntry`] is.
#[verifier::ext_equal]
pub struct DirEntryView {
    pub name: Seq<u8>,
    pub kind: EntryKind,
}

impl View for DirEntry {
    type V = DirEntryView;

    open spec fn view(&self) -> DirEntryView {
        DirEntryView { name: self.name@, kind: self.kind }
    }
}

pub open spec fn entry_views(entries: Seq<DirEntry>) -> Seq<DirEntryView> {
    Seq::new(entries.len(), |i: int| entries[i]@)
}

/// An entry that is still to be looked at, with its path.
#[derive(Debug)]
pub struct Pending {
    pub path: Vec<u8>,
    pub entry: DirEntry,
}

/// What a [`Pending`] is.
#[verifier::ext_equal]
pub struct PendingView {
    pub path: Seq<u8>,
    pub entry: DirEntryView,
}

impl View for Pending {
    type V = PendingView;

    open spec fn view(&self) -> PendingView {
        PendingView { path: self.path@, entry: self.entry@ }
    }
}

/// What is still to be looked at, the next entry first. The next one is held
/// last.
pub open spec fn pending_views(stack: Seq<Pending>) -> Seq<PendingView> {
    Seq::new(stack.len(), |i: int| stack[stack.len() - 1 - i]@)
}

/// The entries of a directory, each with its path.
pub open spec fn placed(dir: Seq<u8>, entries: Seq<DirEntryView>) -> Seq<PendingView> {
    Seq::new(
        entries.len(),
        |i: int| PendingView { path: joined(dir, entries[i].name), entry: entries[i] },
    )
}

// ---------------------------------------------------------------------------
// Walking a tree
// ---------------------------------------------------------------------------

/// Where a walk stops next: at a file with the name that is looked for, at a
/// directory, or nowhere.
#[verifier::ext_equal]
pub enum StopView {
    Match(Seq<u8>),
    Descend(Seq<u8>),
    Nowhere,
}

/// Where a walk stops next, and what is still to be looked at then.
pub open spec fn next_stop(pending: Seq<PendingView>, name: Seq<u8>) -> (
    StopView,
    Seq<PendingView>,
)
    decreases pending.len(),
{
    if pending.len() == 0 {
        (StopView::Nowhere, pending)
    } else {
        let next = pending[0];
        let rest = pending.drop_first();
        if next.entry.kind == EntryKind::File && next.entry.name == name {
            (StopView::Match(next.path), rest)
        } else if next.entry.kind == EntryKind::Directory {
            (StopView::Descend(next.path), rest)
        } else {
            next_stop(rest, name)
        }
    }
}

/// Where a walk stops next.
#[derive(Debug)]
pub enum Stop {
    Match(Vec<u8>),
    Descend(Vec<u8>),
    Nowhere,
}

impl View for Stop {
    type V = StopView;

    open spec fn view(&self) -> StopView {
        match self {
            Stop::Match(path) => StopView::Match(path@),
            Stop::Descend(path) => StopView::Descend(path@),
            Stop::Nowhere => StopView::Nowhere,
        }
    }
}

/// Looks at what is pending, up to the entry at which the walk stops.
pub fn find_stop(stack: &mut Vec<Pending>, name: &[u8]) -> (res: Stop)
    ensures
        (res@, pending_views(final(stack)@)) == next_stop(pending_views(old(stack)@), name@),
{
    let ghost all = pending_views(stack@);
    while stack.len() > 0
        invariant
            all == pending_views(old(stack)@),
            next_stop(pending_views(stack@), name@) == next_stop(all, name@),
        decreases stack.len(),
    {
        let ghost before = pending_views(stack@);
        let ghost top = stack@.last()@;
        let next = stack.pop().unwrap();
        assert(before[0] == top);
        assert(pending_views(stack@) =~= before.drop_first());
        match next.entry.kind {
            EntryKind::File => {
                if same_bytes(next.entry.name.as_slice(), name) {
                    return Stop::Match(next.path);
                }
            },
            EntryKind::Directory => {
                return Stop::Descend(next.path);
            },
            EntryKind::Other => {},
        }
    }
    assert(pending_views(stack@) =~= seq![]);
    Stop::Nowhere
}

/// Puts the entries of a directory before what is pending.
pub fn push_entries(stack: &mut Vec<Pending>, dir: &[u8], entries: Vec<DirEntry>)
    ensures
        pending_views(final(stack)@) == placed(dir@, entry_views(entries@)) + pending_views(
            old(stack)@,
        ),
{
    let ghost all = placed(dir@, entry_views(entries@));
    let ghost before = pending_views(stack@);
    let mut entries = entries;
    assert(all.skip(all.len() as int) + before =~= before);
    while entries.len() > 0
        invariant
            entries@.len() <= all.len(),
            all.take(entries@.len() as int) == placed(dir@, entry_views(entries@)),
            pending_views(stack@) == all.skip(entries@.len() as int) + before,
        decreases entries.len(),
    {
        let ghost n = entries@.len() as int;
        let ghost so_far = pending_views(stack@);
        let ghost shown = entry_views(entries@);
        let ghost last = entries@.last()@;
        let entry = entries.pop().unwrap();
        let path = join(dir, entry.name.as_slice());
        stack.push(Pending { path, entry });
        proof {
            assert(stack@.last()@ == (PendingView { path: joined(dir@, last.name), entry: last }));
            assert(all.take(n)[n - 1] == placed(dir@, shown)[n - 1]);
            assert(stack@.last()@ == all[n - 1]);
            assert(pending_views(stack@) =~= seq![all[n - 1]] + so_far);
            assert(all.skip(n - 1) =~= seq![all[n - 1]] + all.skip(n));
            assert(entry_views(entries@) =~= shown.take(n - 1));
            assert(all.take(n - 1) =~= all.take(n).take(n - 1));
            assert(all.take(n - 1) =~= placed(dir@, entry_views(entries@)));
        }
    }
    assert(all.skip(0) =~= all);
}

// ---------------------------------------------------------------------------
// Finding a program
// ---------------------------------------------------------------------------

/// The directories of a search path, in order: the names between colons.
pub open spec fn path_dirs(path: Seq<u8>) -> Seq<Seq<u8>>
    decreases path.len(),
{
    if path.len() == 0 {
        seq![seq![]]
    } else {
        let before = path_dirs(path.drop_last());
        if path.last() == COLON {
            before.push(seq![])
        } else {
            before.drop_last().push(before.last().push(path.last()))
        }
    }
}

/// Splits a search path into its directories.
pub fn split_paths(path: &[u8]) -> (res: Vec<Vec<u8>>)
    ensures
        path_list(res@) == path_dirs(path@),
{
    let mut dirs: Vec<Vec<u8>> = Vec::new();
    let mut dir: Vec<u8> = Vec::new();
    let mut i: usize = 0;
    assert(path@.take(0) =~= seq![]);
    assert(path_list(dirs@).push(dir@) =~= seq![seq![]]);
    while i < path.len()
        invariant
            i <= path.len(),
            path_list(dirs@).push(dir@) == path_dirs(path@.take(i as int)),
        decreases path.len() - i,
    {
        let ghost before = path_list(dirs@).push(dir@);
        let ghost old_dirs = path_list(dirs@);
        let ghost old_dir = dir@;
        let b = path[i];
        assert(path@.take(i + 1).drop_last() =~= path@.take(i as int));
        if b == COLON {
            dirs.push(dir);
            dir = Vec::new();
            assert(path_list(dirs@) =~= old_dirs.push(old_dir));
            assert(dir@ =~= seq![]);
            assert(path_list(dirs@).push(dir@) =~= before.push(seq![]));
        } else {
            dir.push(b);
            assert(before.drop_last() =~= old_dirs);
        }
        i += 1;
    }
    assert(path@.take(i as int) =~= path@);
    let ghost old_dirs = path_list(dirs@);
    let ghost last = dir@;
    dirs.push(dir);
    assert(path_list(dirs@) =~= old_dirs.push(last));
    dirs
}

/// What a search goes by: the program's name, the launcher's own path, and the
/// directories of $PATH.
#[derive(Debug)]
pub struct Lookup {
    pub name: Vec<u8>,
    pub exe: Option<Vec<u8>>,
    pub dirs: Vec<Vec<u8>>,
}

/// What a [`Lookup`] is.
#[verifier::ext_equal]
pub struct LookupView {
    pub name: Seq<u8>,
    pub exe: Option<Seq<u8>>,
    pub dirs: Seq<Seq<u8>>,
}

impl View for Lookup {
    type V = LookupView;

    open spec fn view(&self) -> LookupView {
        LookupView {
            name: self.name@,
            exe: match self.exe {
                Some(exe) => Some(exe@),
                None => None,
            },
            dirs: path_list(self.dirs@),
        }
    }
}

/// The Bazel runfiles tree of a program: `<exe>.runfiles`.
pub open spec fn runfiles_of(exe: Seq<u8>) -> Seq<u8> {
    encode_utf8(lossy_utf8(exe) + ".runfiles"@)
}

/// The Bazel runfiles tree of a program.
pub fn runfiles_dir(exe: &[u8]) -> (res: Vec<u8>)
    ensures
        res@ == runfiles_of(exe@),
{
    let mut dir = lossy_text(exe);
    dir.append(".runfiles");
    path_copy(dir.as_str().as_bytes())
}

/// A question about the filesystem, or the end of a search.
#[derive(Debug, PartialEq)]
pub enum Query {
    /// Is there a file at this path?
    IsFile(Vec<u8>),
    /// Is there a directory at this path?
    IsDir(Vec<u8>),
    /// What are the entries of this directory?
    List(Vec<u8>),
    /// The program is at this path.
    Found(Vec<u8>),
    /// The program is nowhere.
    NotFound,
}

/// What a [`Query`] is.
#[verifier::ext_equal]
pub enum QueryView {
    IsFile(Seq<u8>),
    IsDir(Seq<u8>),
    List(Seq<u8>),
    Found(Seq<u8>),
    NotFound,
}

impl View for Query {
    type V = QueryView;

    open spec fn view(&self) -> QueryView {
        match self {
            Query::IsFile(path) => QueryView::IsFile(path@),
            Query::IsDir(path) => QueryView::IsDir(path@),
            Query::List(path) => QueryView::List(path@),
            Query::Found(path) => QueryView::Found(path@),
            Query::NotFound => QueryView::NotFound,
        }
    }
}

/// What comes of a question.
#[derive(Debug)]
pub enum Answer {
    Yes,
    No,
    /// The entries of a directory, if it could be read.
    Listing(Option<Vec<DirEntry>>),
}

/// What an [`Answer`] is.
#[verifier::ext_equal]
pub enum AnswerView {
    Yes,
    No,
    Listing(Option<Seq<DirEntryView>>),
}

impl View for Answer {
    type V = AnswerView;

    open spec fn view(&self) -> AnswerView {
        match self {
            Answer::Yes => AnswerView::Yes,
            Answer::No => AnswerView::No,
            Answer::Listing(Some(entries)) => AnswerView::Listing(Some(entry_views(entries@))),
            Answer::Listing(None) => AnswerView::Listing(None),
        }
    }
}

/// How far a search has come.
#[derive(Debug)]
pub enum SearchPhase {
    /// Next to the launcher (dist tarball layout: all binaries in one dir).
    Sibling { candidate: Vec<u8> },
    /// At the runfiles tree.
    Runfiles { dir: Vec<u8> },
    /// In the runfiles tree: a directory of it is being listed.
    Walk { dir: Vec<u8>, pending: Vec<Pending> },
    /// At the `index`th directory of $PATH.
    Path { index: usize, candidate: Vec<u8> },
    /// The program was found.
    Hit { path: Vec<u8> },
    /// There is nowhere left to look.
    Miss,
}

/// What a [`SearchPhase`] is.
#[verifier::ext_equal]
pub enum SearchView {
    Sibling { candidate: Seq<u8> },
    Runfiles { dir: Seq<u8> },
    Walk { dir: Seq<u8>, pending: Seq<PendingView> },
    Path { index: int, candidate: Seq<u8> },
    Hit { path: Seq<u8> },
    Miss,
}

impl View for SearchPhase {
    type V = SearchView;

    open spec fn view(&self) -> SearchView {
        match self {
            SearchPhase::Sibling { candidate } => SearchView::Sibling { candidate: candidate@ },
            SearchPhase::Runfiles { dir } => SearchView::Runfiles { dir: dir@ },
            SearchPhase::Walk { dir, pending } => SearchView::Walk {
                dir: dir@,
                pending: pending_views(pending@),
            },
            SearchPhase::Path { index, candidate } => SearchView::Path {
                index: *index as int,
                candidate: candidate@,
            },
            SearchPhase::Hit { path } => SearchView::Hit { path: path@ },
            SearchPhase::Miss => SearchView::Miss,
        }
    }
}

/// What a search asks in a phase.
pub open spec fn question(phase: SearchView) -> QueryView {
    match phase {
        SearchView::Sibling { candidate } => QueryView::IsFile(candidate),
        SearchView::Runfiles { dir } => QueryView::IsDir(dir),
        SearchView::Walk { dir, .. } => QueryView::List(dir),
        SearchView::Path { candidate, .. } => QueryView::IsFile(candidate),
        SearchView::Hit { path } => QueryView::Found(path),
        SearchView::Miss => QueryView::NotFound,
    }
}

/// A search that goes on at the `index`th directory of $PATH.
pub open spec fn at_path(lookup: LookupView, index: int) -> SearchView {
    if 0 <= index < lookup.dirs.len() {
        SearchView::Path { index, candidate: joined(lookup.dirs[index], lookup.name) }
    } else {
        SearchView::Miss
    }
}

/// A search that goes on in the runfiles tree, with these entries of it to be
/// looked at.
pub open spec fn at_walk(lookup: LookupView, pending: Seq<PendingView>) -> SearchView {
    let (stop, rest) = next_stop(pending, lookup.name);
    match stop {
        StopView::Match(path) => SearchView::Hit { path },
        StopView::Descend(dir) => SearchView::Walk { dir, pending: rest },
        StopView::Nowhere => at_path(lookup, 0),
    }
}

/// A search that goes on at the runfiles tree.
pub open spec fn at_runfiles(lookup: LookupView) -> SearchView {
    match lookup.exe {
        Some(exe) => SearchView::Runfiles { dir: runfiles_of(exe) },
        None => at_path(lookup, 0),
    }
}

/// Where a search begins: next to the launcher, if it knows where it is.
pub open spec fn search_start(lookup: LookupView) -> SearchView {
    match lookup.exe {
        Some(exe) => match parent_of(exe) {
            Some(dir) => SearchView::Sibling { candidate: joined(dir, lookup.name) },
            None => at_runfiles(lookup),
        },
        None => at_runfiles(lookup),
    }
}

/// Where a search goes on after an answer. One that does not fit the question
/// changes nothing.
pub open spec fn search_step(
    lookup: LookupView,
    phase: SearchView,
    answer: AnswerView,
) -> SearchView {
    match (phase, answer) {
        (SearchView::Sibling { candidate }, AnswerView::Yes) => SearchView::Hit {
            path: candidate,
        },
        (SearchView::Sibling { .. }, AnswerView::No) => at_runfiles(lookup),
        (SearchView::Runfiles { dir }, AnswerView::Yes) => SearchView::Walk {
            dir,
            pending: seq![],
        },
        (SearchView::Runfiles { .. }, AnswerView::No) => at_path(lookup, 0),
        (SearchView::Walk { dir, pending }, AnswerView::Listing(Some(entries))) => at_walk(
            lookup,
            placed(dir, entries) + pending,
        ),
        (SearchView::Walk { pending, .. }, AnswerView::Listing(None)) => at_walk(lookup, pending),
        (SearchView::Path { candidate, .. }, AnswerView::Yes) => SearchView::Hit {
            path: candidate,
        },
        (SearchView::Path { index, .. }, AnswerView::No) => at_path(lookup, index + 1),
        _ => phase,
    }
}

fn copied(path: &Vec<u8>) -> (res: Vec<u8>)
    ensures
        res@ == path@,
{
    path_copy(path.as_slice())
}

impl Lookup {
    fn go_to_path(&self, index: usize) -> (res: SearchPhase)
        ensures
            res@ == at_path(self@, index as int),
    {
        if index < self.dirs.len() {
            assert(self@.dirs[index as int] == self.dirs@[index as int]@);
            SearchPhase::Path {
                index,
                candidate: join(self.dirs[index].as_slice(), self.name.as_slice()),
            }
        } else {
            SearchPhase::Miss
        }
    }

    fn go_to_runfiles(&self) -> (res: SearchPhase)
        ensures
            res@ == at_runfiles(self@),
    {
        match &self.exe {
            Some(exe) => SearchPhase::Runfiles { dir: runfiles_dir(exe.as_slice()) },
            None => self.go_to_path(0),
        }
    }

    /// Goes on with a walk of the runfiles tree.
    fn find_in_runfiles(&self, pending: Vec<Pending>) -> (res: SearchPhase)
        ensures
            res@ == at_walk(self@, pending_views(pending@)),
    {
        let mut pending = pending;
        match find_stop(&mut pending, self.name.as_slice()) {
            Stop::Match(path) => SearchPhase::Hit { path },
            Stop::Descend(dir) => SearchPhase::Walk { dir, pending },
            Stop::Nowhere => self.go_to_path(0),
        }
    }
}

/// A search for a program.
#[derive(Debug)]
pub struct BinarySearch {
    pub lookup: Lookup,
    pub phase: SearchPhase,
}

/// Find a binary by name. Search order:
/// 1. Sibling of the current executable (dist tarball layout)
/// 2. Bazel runfiles tree (<exe>.runfiles/, recursive search for name)
/// 3. $PATH
///
/// `exe` is the current executable's path and `path` the value of $PATH, where
/// they are known.
pub fn find_binary(name: &[u8], exe: &Option<Vec<u8>>, path: &Option<Vec<u8>>) -> (res: BinarySearch)
    ensures
        res.lookup@ == lookup_of(name@, opt_path(*exe), opt_path(*path)),
        res.phase@ == search_start(res.lookup@),
{
    let dirs = match path {
        Some(path) => split_paths(path.as_slice()),
        None => Vec::new(),
    };
    let exe = match exe {
        Some(exe) => Some(copied(exe)),
        None => None,
    };
    let lookup = Lookup { name: path_copy(name), exe, dirs };
    assert(lookup@ =~= lookup_of(name@, lookup@.exe, opt_path(*path)));
    let phase = match &lookup.exe {
        Some(exe) => match parent(exe.as_slice()) {
            Some(dir) => SearchPhase::Sibling {
                candidate: join(dir.as_slice(), lookup.name.as_slice()),
            },
            None => lookup.go_to_runfiles(),
        },
        None => lookup.go_to_runfiles(),
    };
    BinarySearch { lookup, phase }
}

/// What a search for a program goes by.
pub open spec fn lookup_of(
    name: Seq<u8>,
    exe: Option<Seq<u8>>,
    path: Option<Seq<u8>>,
) -> LookupView {
    LookupView {
        name,
        exe,
        dirs: match path {
            Some(path) => path_dirs(path),
            None => seq![],
        },
    }
}

impl BinarySearch {
    /// What the search asks now, or how it ended.
    pub fn query(&self) -> (res: Query)
        ensures
            res@ == question(self.phase@),
    {
        match &self.phase {
            SearchPhase::Sibling { candidate } => Query::IsFile(copied(candidate)),
            SearchPhase::Runfiles { dir } => Query::IsDir(copied(dir)),
            SearchPhase::Walk { dir, .. } => Query::List(copied(dir)),
            SearchPhase::Path { candidate, .. } => Query::IsFile(copied(candidate)),
            SearchPhase::Hit { path } => Query::Found(copied(path)),
            SearchPhase::Miss => Query::NotFound,
        }
    }

    /// Takes the answer to the current question.
    pub fn answer(&mut self, answer: Answer)
        ensures
            final(self).lookup == old(self).lookup,
            final(self).phase@ == search_step(old(self).lookup@, old(self).phase@, answer@),
    {
        let mut phase = SearchPhase::Miss;
        std::mem::swap(&mut self.phase, &mut phase);
        self.phase = match (phase, answer) {
            (SearchPhase::Sibling { candidate }, Answer::Yes) => SearchPhase::Hit {
                path: candidate,
            },
            (SearchPhase::Sibling { .. }, Answer::No) => self.lookup.go_to_runfiles(),
            (SearchPhase::Runfiles { dir }, Answer::Yes) => {
                let pending: Vec<Pending> = Vec::new();
                assert(pending_views(pending@) =~= seq![]);
                SearchPhase::Walk { dir, pending }
            },
            (SearchPhase::Runfiles { .. }, Answer::No) => self.lookup.go_to_path(0),
            (SearchPhase::Walk { dir, mut pending }, Answer::Listing(Some(entries))) => {
                push_entries(&mut pending, dir.as_slice(), entries);
                self.lookup.find_in_runfiles(pending)
            },
            (SearchPhase::Walk { pending, .. }, Answer::Listing(None)) => {
                self.lookup.find_in_runfiles(pending)
            },
            (SearchPhase::Path { candidate, .. }, Answer::Yes) => SearchPhase::Hit {
                path: candidate,
            },
            (SearchPhase::Path { index, .. }, Answer::No) => {
                if index < self.lookup.dirs.len() {
                    self.lookup.go_to_path(index + 1)
                } else {
                    SearchPhase::Miss
                }
            },
            (phase, _) => phase,
        };
    }
}

/// What the user is told of a program that was not found.
pub fn not_found_message(name: &str) -> (res: String)
    ensures
        res@ == "'"@ + name@ + "' not found alongside wsb or in PATH"@,
{
    let mut res = "'".to_owned();
    res.append(name);
    res.append("' not found alongside wsb or in PATH");
    res
}

// ---------------------------------------------------------------------------
// Laws
// ---------------------------------------------------------------------------

/// What a filesystem answers: which paths are files, which are directories, and
/// what a directory holds.
pub struct World {
    pub is_file: spec_fn(Seq<u8>) -> bool,
    pub is_dir: spec_fn(Seq<u8>) -> bool,
    pub listing: spec_fn(Seq<u8>) -> Option<Seq<DirEntryView>>,
}

/// A file, a directory with what it holds (if it can be read), or anything
/// else.
pub enum Node {
    File,
    Directory(Option<Seq<NamedNode>>),
    Other,
}

/// A node under its name in a directory.
pub struct NamedNode {
    pub name: Seq<u8>,
    pub node: Node,
}

/// What a directory with these nodes lists.
pub open spec fn listing_of(nodes: Seq<NamedNode>) -> Seq<DirEntryView> {
    Seq::new(
        nodes.len(),
        |i: int|
            DirEntryView {
                name: nodes[i].name,
                kind: match nodes[i].node {
                    Node::File => EntryKind::File,
                    Node::Directory(_) => EntryKind::Directory,
                    Node::Other => EntryKind::Other,
                },
            },
    )
}

/// A filesystem shows this node at a path.
pub open spec fn shows(world: World, path: Seq<u8>, node: NamedNode) -> bool
    decreases node,
{
    match node.node {
        Node::Directory(Some(nodes)) => {
            &&& (world.listing)(path) == Some(listing_of(nodes))
            &&& forall|i: int|
                0 <= i < nodes.len() ==> shows(
                    world,
                    joined(path, nodes[i].name),
                    #[trigger] nodes[i],
                )
        },
        Node::Directory(None) => (world.listing)(path) is None,
        _ => true,
    }
}

/// The first file with a name at or below a node, in the order of the listings.
pub open spec fn match_in(path: Seq<u8>, node: NamedNode, name: Seq<u8>) -> Option<Seq<u8>>
    decreases node,
{
    match node.node {
        Node::File => if node.name == name {
            Some(path)
        } else {
            None
        },
        Node::Directory(Some(nodes)) => match_below(path, nodes, name),
        _ => None,
    }
}

/// The first file with a name among nodes of a directory or below one of them:
/// a directory is gone through before the node that follows it.
pub open spec fn match_below(dir: Seq<u8>, nodes: Seq<NamedNode>, name: Seq<u8>) -> Option<Seq<u8>>
    decreases nodes,
{
    if nodes.len() == 0 {
        None
    } else {
        match match_in(joined(dir, nodes[0].name), nodes[0], name) {
            Some(path) => Some(path),
            None => match_below(dir, nodes.drop_first(), name),
        }
    }
}

/// What a filesystem answers to a search's question.
pub open spec fn world_answer(world: World, phase: SearchView) -> AnswerView {
    match question(phase) {
        QueryView::IsFile(path) => if (world.is_file)(path) {
            AnswerView::Yes
        } else {
            AnswerView::No
        },
        QueryView::IsDir(path) => if (world.is_dir)(path) {
            AnswerView::Yes
        } else {
            AnswerView::No
        },
        QueryView::List(path) => AnswerView::Listing((world.listing)(path)),
        _ => AnswerView::No,
    }
}

/// Where a search has come after `n` answers of a filesystem.
pub open spec fn after_answers(
    lookup: LookupView,
    world: World,
    phase: SearchView,
    n: nat,
) -> SearchView
    decreases n,
{
    if n == 0 {
        phase
    } else {
        after_answers(
            lookup,
            world,
            search_step(lookup, phase, world_answer(world, phase)),
            (n - 1) as nat,
        )
    }
}

/// The end of a search of $PATH from its `index`th directory on: the first one
/// that holds the program as a file.
pub open spec fn path_result(lookup: LookupView, world: World, index: int) -> SearchView
    decreases lookup.dirs.len() - index,
{
    if 0 <= index < lookup.dirs.len() {
        let candidate = joined(lookup.dirs[index], lookup.name);
        if (world.is_file)(candidate) {
            SearchView::Hit { path: candidate }
        } else {
            path_result(lookup, world, index + 1)
        }
    } else {
        SearchView::Miss
    }
}

/// The end of a search from the runfiles tree on, given what the tree holds.
pub open spec fn runfiles_result(
    lookup: LookupView,
    world: World,
    tree: Option<Seq<NamedNode>>,
) -> SearchView {
    match (lookup.exe, tree) {
        (Some(exe), Some(nodes)) if (world.is_dir)(runfiles_of(exe)) => match match_below(
            runfiles_of(exe),
            nodes,
            lookup.name,
        ) {
            Some(path) => SearchView::Hit { path },
            None => path_result(lookup, world, 0),
        },
        _ => path_result(lookup, world, 0),
    }
}

/// The end of a search: a file next to the launcher, else the first match in
/// the runfiles tree, else the first directory of $PATH that holds the program.
pub open spec fn search_result(
    lookup: LookupView,
    world: World,
    tree: Option<Seq<NamedNode>>,
) -> SearchView {
    match lookup.exe {
        Some(exe) => match parent_of(exe) {
            Some(dir) if (world.is_file)(joined(dir, lookup.name)) => SearchView::Hit {
                path: joined(dir, lookup.name),
            },
            _ => runfiles_result(lookup, world, tree),
        },
        None => path_result(lookup, world, 0),
    }
}

/// The launcher's runfiles tree, if it has one, is a finite tree that the
/// filesystem shows.
pub open spec fn runfiles_shown(
    lookup: LookupView,
    world: World,
    tree: Option<Seq<NamedNode>>,
) -> bool {
    lookup.exe matches Some(exe) ==> shows(
        world,
        runfiles_of(exe),
        (NamedNode { name: seq![], node: Node::Directory(tree) }),
    )
}

/// On a filesystem whose runfiles tree is finite, a search ends, and ends where
/// the documented order says.
pub proof fn law_search_order(lookup: LookupView, world: World, tree: Option<Seq<NamedNode>>)
    ensures
        runfiles_shown(lookup, world, tree) ==> exists|n: nat| #[trigger]
            after_answers(lookup, world, search_start(lookup), n) == search_result(
                lookup,
                world,
                tree,
            ),
{
    if runfiles_shown(lookup, world, tree) {
        let start = search_start(lookup);
        match lookup.exe {
            Some(exe) => match parent_of(exe) {
                Some(dir) => {
                    if (world.is_file)(joined(dir, lookup.name)) {
                        assert(after_answers(lookup, world, start, 1) == search_result(
                            lookup,
                            world,
                            tree,
                        )) by {
                            reveal_with_fuel(after_answers, 2);
                        }
                    } else {
                        let n = lemma_from_runfiles(lookup, world, tree);
                        assert(after_answers(lookup, world, start, n + 1) == search_result(
                            lookup,
                            world,
                            tree,
                        ));
                    }
                },
                None => {
                    let n = lemma_from_runfiles(lookup, world, tree);
                    assert(after_answers(lookup, world, start, n) == search_result(
                        lookup,
                        world,
                        tree,
                    ));
                },
            },
            None => {
                let n = lemma_from_path(lookup, world, 0);
                assert(after_answers(lookup, world, start, n) == search_result(
                    lookup,
                    world,
                    tree,
                ));
            },
        }
    }
}

proof fn lemma_from_path(lookup: LookupView, world: World, index: int) -> (n: nat)
    requires
        0 <= index,
    ensures
        after_answers(lookup, world, at_path(lookup, index), n) == path_result(
            lookup,
            world,
            index,
        ),
    decreases lookup.dirs.len() - index,
{
    if index < lookup.dirs.len() {
        if (world.is_file)(joined(lookup.dirs[index], lookup.name)) {
            reveal_with_fuel(after_answers, 2);
            1
        } else {
            let n = lemma_from_path(lookup, world, index + 1);
            n + 1
        }
    } else {
        0
    }
}

proof fn lemma_from_runfiles(
    lookup: LookupView,
    world: World,
    tree: Option<Seq<NamedNode>>,
) -> (n: nat)
    requires
        lookup.exe is Some,
        runfiles_shown(lookup, world, tree),
    ensures
        after_answers(lookup, world, at_runfiles(lookup), n) == runfiles_result(
            lookup,
            world,
            tree,
        ),
{
    let dir = runfiles_of(lookup.exe->Some_0);
    if (world.is_dir)(dir) {
        let walk = SearchView::Walk { dir, pending: seq![] };
        let nodes = match tree {
            Some(nodes) => nodes,
            None => seq![],
        };
        let forest = planted(dir, nodes);
        match tree {
            Some(_) => {
                assert(placed(dir, listing_of(nodes)) + seq![] =~= forest_views(forest));
            },
            None => {
                assert(forest_views(forest) =~= seq![]);
            },
        }
        assert forall|i: int| 0 <= i < forest.len() implies shows(
            world,
            (#[trigger] forest[i]).path,
            forest[i].node,
        ) by {
            lemma_shown_below(
                world,
                dir,
                (NamedNode { name: seq![], node: Node::Directory(tree) }),
                i,
            );
        }
        let n = lemma_from_walk(lookup, world, forest);
        lemma_planted(dir, nodes, seq![], lookup.name);
        assert(forest + seq![] =~= forest);
        assert(search_step(lookup, walk, world_answer(world, walk)) == at_walk(
            lookup,
            forest_views(forest),
        ));
        assert(after_answers(lookup, world, walk, n + 1) == runfiles_result(lookup, world, tree));
        n + 2
    } else {
        let n = lemma_from_path(lookup, world, 0);
        n + 1
    }
}

proof fn lemma_shown_below(world: World, path: Seq<u8>, node: NamedNode, i: int)
    requires
        shows(world, path, node),
        node.node matches Node::Directory(Some(nodes)) && 0 <= i < nodes.len(),
    ensures
        node.node matches Node::Directory(Some(nodes)) && shows(
            world,
            joined(path, nodes[i].name),
            nodes[i],
        ),
{
    reveal_with_fuel(shows, 2);
}

/// A node at its path.
struct Planted {
    path: Seq<u8>,
    node: NamedNode,
}

spec fn planted(dir: Seq<u8>, nodes: Seq<NamedNode>) -> Seq<Planted> {
    Seq::new(nodes.len(), |i: int| Planted { path: joined(dir, nodes[i].name), node: nodes[i] })
}

spec fn forest_views(forest: Seq<Planted>) -> Seq<PendingView> {
    Seq::new(
        forest.len(),
        |i: int| PendingView { path: forest[i].path, entry: listing_of(seq![forest[i].node])[0] },
    )
}

spec fn forest_match(forest: Seq<Planted>, name: Seq<u8>) -> Option<Seq<u8>>
    decreases forest.len(),
{
    if forest.len() == 0 {
        None
    } else {
        match match_in(forest[0].path, forest[0].node, name) {
            Some(path) => Some(path),
            None => forest_match(forest.drop_first(), name),
        }
    }
}

spec fn node_size(node: NamedNode) -> nat
    decreases node,
{
    match node.node {
        Node::Directory(Some(nodes)) => 1 + nodes_size(nodes),
        _ => 1,
    }
}

spec fn nodes_size(nodes: Seq<NamedNode>) -> nat
    decreases nodes,
{
    if nodes.len() == 0 {
        0
    } else {
        node_size(nodes[0]) + nodes_size(nodes.drop_first())
    }
}

spec fn forest_size(forest: Seq<Planted>) -> nat
    decreases forest.len(),
{
    if forest.len() == 0 {
        0
    } else {
        node_size(forest[0].node) + forest_size(forest.drop_first())
    }
}

proof fn lemma_planted(dir: Seq<u8>, nodes: Seq<NamedNode>, rest: Seq<Planted>, name: Seq<u8>)
    ensures
        forest_size(planted(dir, nodes) + rest) == nodes_size(nodes) + forest_size(rest),
        forest_match(planted(dir, nodes) + rest, name) == (match match_below(dir, nodes, name) {
            Some(path) => Some(path),
            None => forest_match(rest, name),
        }),
    decreases nodes.len(),
{
    let forest = planted(dir, nodes) + rest;
    if nodes.len() == 0 {
        assert(forest =~= rest);
    } else {
        lemma_planted(dir, nodes.drop_first(), rest, name);
        assert(forest.drop_first() =~= planted(dir, nodes.drop_first()) + rest);
    }
}

#[verifier::rlimit(40)]
proof fn lemma_from_walk(lookup: LookupView, world: World, forest: Seq<Planted>) -> (n: nat)
    requires
        forall|i: int|
            0 <= i < forest.len() ==> shows(world, (#[trigger] forest[i]).path, forest[i].node),
    ensures
        after_answers(lookup, world, at_walk(lookup, forest_views(forest)), n) == (
        match forest_match(forest, lookup.name) {
            Some(path) => SearchView::Hit { path },
            None => path_result(lookup, world, 0),
        }),
    decreases forest_size(forest),
{
    let views = forest_views(forest);
    if forest.len() == 0 {
        lemma_from_path(lookup, world, 0)
    } else {
        let top = forest[0];
        let rest = forest.drop_first();
        assert(views.drop_first() =~= forest_views(rest));
        assert(views[0].path == top.path && views[0].entry.name == top.node.name);
        match top.node.node {
            Node::Directory(inside) => {
                let nodes = match inside {
                    Some(nodes) => nodes,
                    None => seq![],
                };
                let below = planted(top.path, nodes) + rest;
                lemma_planted(top.path, nodes, rest, lookup.name);
                assert forall|i: int| 0 <= i < below.len() implies shows(
                    world,
                    (#[trigger] below[i]).path,
                    below[i].node,
                ) by {
                    if i < nodes.len() {
                        lemma_shown_below(world, top.path, top.node, i);
                    } else {
                        assert(below[i] == forest[i - nodes.len() + 1]);
                    }
                }
                let n = lemma_from_walk(lookup, world, below);
                let walk = SearchView::Walk { dir: top.path, pending: forest_views(rest) };
                assert(at_walk(lookup, views) == walk);
                match inside {
                    Some(_) => {
                        assert(placed(top.path, listing_of(nodes)) + forest_views(rest)
                            =~= forest_views(below));
                    },
                    None => {
                        assert(below =~= rest);
                    },
                }
                assert(search_step(lookup, walk, world_answer(world, walk)) == at_walk(
                    lookup,
                    forest_views(below),
                ));
                n + 1
            },
            _ => {
                if top.node.node is File && top.node.name == lookup.name {
                    0
                } else {
                    assert(at_walk(lookup, views) == at_walk(lookup, forest_views(rest)));
                    lemma_from_walk(lookup, world, rest)
                }
            },
        }
    }
}

proof fn lemma_some_dir(path: Seq<u8>)
    ensures
        path_dirs(path).len() > 0,
    decreases path.len(),
{
    if path.len() > 0 {
        lemma_some_dir(path.drop_last());
    }
}

/// A colon separates the directories of a search path, and nothing else does:
/// the directories before it stay before those after it.
pub proof fn law_colons_separate(a: Seq<u8>, b: Seq<u8>)
    ensures
        path_dirs(a + seq![58u8] + b) == path_dirs(a) + path_dirs(b),
    decreases b.len(),
{
    let all = a + seq![58u8] + b;
    if b.len() == 0 {
        assert(all.drop_last() =~= a);
        assert(all.last() == 58);
        assert(path_dirs(b) =~= seq![Seq::<u8>::empty()]);
        assert(path_dirs(all) =~= path_dirs(a) + path_dirs(b));
    } else {
        let rest = b.drop_last();
        law_colons_separate(a, rest);
        lemma_some_dir(rest);
        assert(all.drop_last() =~= a + seq![58u8] + rest);
        assert(all.last() == b.last());
        let before = path_dirs(a) + path_dirs(rest);
        assert(before.last() == path_dirs(rest).last());
        assert(before.drop_last() =~= path_dirs(a) + path_dirs(rest).drop_last());
        assert(path_dirs(all) =~= path_dirs(a) + path_dirs(b));
    }
}

/// Without a colon a search path is one directory.
pub proof fn law_one_directory(path: Seq<u8>)
    requires
        forall|i: int| 0 <= i < path.len() ==> #[trigger] path[i] != 58,
    ensures
        path_dirs(path) == seq![path],
    decreases path.len(),
{
    if path.len() > 0 {
        let rest = path.drop_last();
        assert forall|i: int| 0 <= i < rest.len() implies #[trigger] rest[i] != 58 by {
            assert(rest[i] == path[i]);
        }
        law_one_directory(rest);
        assert(path.last() == path[path.len() - 1]);
        assert(rest.push(path.last()) =~= path);
        assert(path_dirs(path) =~= seq![path]);
    } else {
        assert(path =~= seq![]);
        assert(path_dirs(path) =~= seq![path]);
    }
}

/// An entry that a walk passes by: neither a directory nor a file with the name
/// that is looked for.
pub open spec fn passed_by(next: PendingView, name: Seq<u8>) -> bool {
    &&& !(next.entry.kind is Directory)
    &&& !(next.entry.kind is File && next.entry.name == name)
}

/// A walk stops at the first entry that it does not pass by: at a file with the
/// name it has its match, and a directory it goes through next. What follows
/// that entry is still to be looked at. Where there is no such entry the walk is
/// over.
pub proof fn law_a_walk_stops(pending: Seq<PendingView>, name: Seq<u8>, i: int)
    requires
        forall|j: int| 0 <= j < i && j < pending.len() ==> passed_by(#[trigger] pending[j], name),
        0 <= i <= pending.len(),
    ensures
        i < pending.len() && pending[i].entry.kind is Directory ==> next_stop(pending, name) == (
            StopView::Descend(pending[i].path),
            pending.skip(i + 1),
        ),
        i < pending.len() && pending[i].entry.kind is File && pending[i].entry.name == name
            ==> next_stop(pending, name) == (
            StopView::Match(pending[i].path),
            pending.skip(i + 1),
        ),
        i == pending.len() ==> next_stop(pending, name).0 is Nowhere && next_stop(
            pending,
            name,
        ).1.len() == 0,
    decreases pending.len(),
{
    if pending.len() > 0 {
        let rest = pending.drop_first();
        assert(pending.skip(1) =~= rest);
        if i > 0 {
            assert(passed_by(pending[0], name));
            assert forall|j: int| 0 <= j < i - 1 && j < rest.len() implies passed_by(
                #[trigger] rest[j],
                name,
            ) by {
                assert(rest[j] == pending[j + 1]);
            }
            law_a_walk_stops(rest, name, i - 1);
            if i < pending.len() {
                assert(rest[i - 1] == pending[i]);
                assert(rest.skip(i) =~= pending.skip(i + 1));
            }
        }
    }
}

/// The entries of a directory lie below it, each under its own name and in the
/// order of the listing.
pub proof fn law_entries_lie_below(dir: Seq<u8>, entries: Seq<DirEntryView>)
    ensures
        placed(dir, entries).len() == entries.len(),
        forall|i: int|
            0 <= i < entries.len() ==> {
                &&& (#[trigger] placed(dir, entries)[i]).entry == entries[i]
                &&& placed(dir, entries)[i].path == joined(dir, entries[i].name)
            },
{
}

/// A search of the directories of $PATH: the `index`th is next, if there is one.
pub open spec fn tries_path(lookup: LookupView, index: int, phase: SearchView) -> bool {
    if index < lookup.dirs.len() {
        &&& phase is Path
        &&& phase->Path_index == index
        &&& phase->Path_candidate == joined(lookup.dirs[index], lookup.name)
    } else {
        phase is Miss
    }
}

/// A search begins next to the launcher; without a directory of its own at the
/// runfiles tree, and without a launcher at $PATH.
pub proof fn law_search_begins(lookup: LookupView)
    ensures
        match lookup.exe {
            Some(exe) => match parent_of(exe) {
                Some(dir) => search_start(lookup) == (SearchView::Sibling {
                    candidate: joined(dir, lookup.name),
                }),
                None => search_start(lookup) == (SearchView::Runfiles {
                    dir: encode_utf8(lossy_utf8(exe) + ".runfiles"@),
                }),
            },
            None => tries_path(lookup, 0, search_start(lookup)),
        },
{
}

/// A yes ends the search at the very path that was asked for, but a yes to the
/// runfiles tree, which is then listed. A no leads on: from the sibling to the
/// runfiles tree, from there to $PATH, and along it one directory at a time.
pub proof fn law_search_goes_on(lookup: LookupView, path: Seq<u8>, index: int)
    requires
        index >= 0,
    ensures
        search_step(lookup, SearchView::Sibling { candidate: path }, AnswerView::Yes) == (
        SearchView::Hit { path }),
        search_step(lookup, SearchView::Path { index, candidate: path }, AnswerView::Yes) == (
        SearchView::Hit { path }),
        search_step(lookup, SearchView::Runfiles { dir: path }, AnswerView::Yes) == (
        SearchView::Walk { dir: path, pending: seq![] }),
        ({
            let next = search_step(
                lookup,
                SearchView::Sibling { candidate: path },
                AnswerView::No,
            );
            match lookup.exe {
                Some(exe) => next == (SearchView::Runfiles {
                    dir: encode_utf8(lossy_utf8(exe) + ".runfiles"@),
                }),
                None => tries_path(lookup, 0, next),
            }
        }),
        tries_path(
            lookup,
            0,
            search_step(lookup, SearchView::Runfiles { dir: path }, AnswerView::No),
        ),
        tries_path(
            lookup,
            index + 1,
            search_step(lookup, SearchView::Path { index, candidate: path }, AnswerView::No),
        ),
{
}

/// A listing is looked at before what was pending, and one that could not be
/// read adds nothing. The search ends at a match, goes on in a directory, and
/// turns to $PATH once nothing is pending.
pub proof fn law_a_walk_goes_on(
    lookup: LookupView,
    dir: Seq<u8>,
    pending: Seq<PendingView>,
    entries: Option<Seq<DirEntryView>>,
)
    ensures
        ({
            let next = search_step(
                lookup,
                SearchView::Walk { dir, pending },
                AnswerView::Listing(entries),
            );
            let waiting = match entries {
                Some(entries) => placed(dir, entries) + pending,
                None => pending,
            };
            let (stop, rest) = next_stop(waiting, lookup.name);
            match stop {
                StopView::Match(path) => next == (SearchView::Hit { path }),
                StopView::Descend(path) => next == (SearchView::Walk { dir: path, pending: rest }),
                StopView::Nowhere => tries_path(lookup, 0, next),
            }
        }),
{
}

/// A search that has ended stays as it is, and an answer to another question
/// than was asked changes nothing.
pub proof fn law_search_stands_still(
    lookup: LookupView,
    phase: SearchView,
    answer: AnswerView,
)
    ensures
        phase is Hit || phase is Miss ==> search_step(lookup, phase, answer) == phase,
        phase is Walk && !(answer is Listing) ==> search_step(lookup, phase, answer) == phase,
        !(phase is Walk) && answer is Listing ==> search_step(lookup, phase, answer) == phase,
{
}

/// What is asked in each phase is asked of the path that the phase is at.
pub proof fn law_questions(path: Seq<u8>, pending: Seq<PendingView>, index: int)
    ensures
        question(SearchView::Sibling { candidate: path }) == QueryView::IsFile(path),
        question(SearchView::Runfiles { dir: path }) == QueryView::IsDir(path),
        question(SearchView::Walk { dir: path, pending }) == QueryView::List(path),
        question(SearchView::Path { index, candidate: path }) == QueryView::IsFile(path),
        question(SearchView::Hit { path }) == QueryView::Found(path),
        question(SearchView::Miss) is NotFound,
{
}

/// A search goes by the name it was given, the launcher's path, and the
/// directories of $PATH, of which there are none where it is not set.
pub proof fn law_lookups(name: Seq<u8>, exe: Option<Seq<u8>>, path: Seq<u8>)
    ensures
        lookup_of(name, exe, Some(path)) == (LookupView { name, exe, dirs: path_dirs(path) }),
        lookup_of(name, exe, None).name == name,
        lookup_of(name, exe, None).exe == exe,
        lookup_of(name, exe, None).dirs.len() == 0,
{
}

/// Entries and what is pending show all that they say; of what is pending the
/// last comes first.
pub proof fn law_search_views(
    entries: Seq<DirEntry>,
    stack: Seq<Pending>,
    lookup: Lookup,
    path: Vec<u8>,
    listing: Vec<DirEntry>,
)
    ensures
        entry_views(entries).len() == entries.len(),
        forall|i: int|
            0 <= i < entries.len() ==> (#[trigger] entry_views(entries)[i]).name
                == entries[i].name@ && entry_views(entries)[i].kind == entries[i].kind,
        pending_views(stack).len() == stack.len(),
        forall|i: int|
            0 <= i < stack.len() ==> {
                let next = stack[stack.len() - 1 - i];
                &&& (#[trigger] pending_views(stack)[i]).path == next.path@
                &&& pending_views(stack)[i].entry.name == next.entry.name@
                &&& pending_views(stack)[i].entry.kind == next.entry.kind
            },
        lookup@.name == lookup.name@,
        lookup@.exe == opt_path(lookup.exe),
        lookup@.dirs == path_list(lookup.dirs@),
        Query::IsFile(path)@ == QueryView::IsFile(path@),
        Query::IsDir(path)@ == QueryView::IsDir(path@),
        Query::List(path)@ == QueryView::List(path@),
        Query::Found(path)@ == QueryView::Found(path@),
        Query::NotFound@ is NotFound,
        Answer::Yes@ is Yes,
        Answer::No@ is No,
        Answer::Listing(Some(listing))@ == AnswerView::Listing(Some(entry_views(listing@))),
        Answer::Listing(None)@ == AnswerView::Listing(None),
        Stop::Match(path)@ == StopView::Match(path@),
        Stop::Descend(path)@ == StopView::Descend(path@),
        Stop::Nowhere@ is Nowhere,
{
}

/// Phases of a search show all that they say.
pub proof fn law_search_phase_views(path: Vec<u8>, pending: Vec<Pending>, index: usize)
    ensures
        (SearchPhase::Sibling { candidate: path })@ == (SearchView::Sibling { candidate: path@ }),
        (SearchPhase::Runfiles { dir: path })@ == (SearchView::Runfiles { dir: path@ }),
        (SearchPhase::Walk { dir: path, pending })@ == (SearchView::Walk {
            dir: path@,
            pending: pending_views(pending@),
        }),
        (SearchPhase::Path { index, candidate: path })@ == (SearchView::Path {
            index: index as int,
            candidate: path@,
        }),
        (SearchPhase::Hit { path })@ == (SearchView::Hit { path: path@ }),
        SearchPhase::Miss@ is Miss,
{
}

} // verus!
