//! The search for the project that a link belongs to.
//!
//! The search runs step by step: it says what to look up next, and goes on with what was found.
//! 1. A root that was asked for: its project, or the directory itself.
//! 2. For a link to GitHub, a known project with the name of the repository.
//! 3. The project around a start directory: of an absolute path its parent, else the current
//!    directory.
//! 4. For an absolute path, its parent.

use vstd::prelude::*;
use vstd::string::*;

use crate::paths::{file_name_of, parent, parent_of};
use crate::records::{root_at, JumpLinkKind, JumpRequest, ProjectRoot, RootView};
use crate::text::{chars_of, opt_str, opt_view, string_views};

verus! {

/// The markers by which projects are found.
#[derive(Debug)]
pub enum Markers {
    /// The default ones.
    Defaults,
    /// Those that were asked for.
    Custom(Vec<String>),
}

impl Markers {
    /// The markers that were asked for, if any were.
    pub open spec fn view(self) -> Option<Seq<Seq<char>>> {
        match self {
            Markers::Defaults => None,
            Markers::Custom(list) => Some(string_views(list@)),
        }
    }

    fn copy(&self) -> (r: Markers)
        ensures
            r@ == self@,
    {
        match self {
            Markers::Defaults => Markers::Defaults,
            Markers::Custom(list) => Markers::Custom(copy_list(list)),
        }
    }
}

/// What an optional list of markers says.
pub open spec fn marker_views(markers: Option<Vec<String>>) -> Option<Seq<Seq<char>>> {
    match markers {
        Some(list) => Some(string_views(list@)),
        None => None,
    }
}

fn copy_list(list: &Vec<String>) -> (r: Vec<String>)
    ensures
        string_views(r@) == string_views(list@),
{
    let mut copy: Vec<String> = Vec::new();
    let mut i: usize = 0;
    while i < list.len()
        invariant
            i <= list.len(),
            string_views(copy@) == string_views(list@).take(i as int),
        decreases list.len() - i,
    {
        let ghost done = string_views(copy@);
        copy.push(list[i].clone());
        assert(string_views(copy@) =~= done.push(list@[i as int]@));
        assert(string_views(list@).take(i + 1) =~= done.push(list@[i as int]@));
        i += 1;
    }
    assert(string_views(list@).take(i as int) =~= string_views(list@));
    copy
}

/// The markers that were asked for, or the default ones.
pub fn build_scanner(markers: &Option<Vec<String>>) -> (r: Markers)
    ensures
        r@ == marker_views(*markers),
{
    match markers {
        Some(list) => Markers::Custom(copy_list(list)),
        None => Markers::Defaults,
    }
}

/// The markers of the command line: none asks for the default ones.
pub fn marker_option(markers: Vec<String>) -> (r: Option<Vec<String>>)
    ensures
        match r {
            Some(list) => markers@.len() > 0 && list == markers,
            None => markers@.len() == 0,
        },
{
    if markers.len() == 0 {
        None
    } else {
        Some(markers)
    }
}

/// What to look up next, or how the search has ended.
pub enum RootAction {
    /// Find the full path of a directory.
    Canonicalize(String),
    /// Look for a project at a directory and above it, by the markers.
    ScanFrom { start: String, markers: Markers },
    /// Look for a project of this name, by the markers.
    SearchByName { name: String, markers: Markers },
    /// Find the current directory.
    CurrentDir,
    /// The project.
    Found(ProjectRoot),
    /// There is no project.
    Failed(LocateError),
}

/// Why there is no project.
#[derive(Debug)]
pub enum LocateError {
    /// The root that was asked for has no full path.
    Canonicalize { root: String, cause: String },
    /// The scan for a project failed.
    Scan { cause: String },
    /// The current directory is not known.
    CurrentDir { cause: String },
    /// There is no project with one of the markers at the start directory or above it.
    NotFound { start: String, markers: Markers },
}

/// What a lookup has found.
pub enum RootEvent {
    Canonical(Result<String, String>),
    Scanned(Result<Option<ProjectRoot>, String>),
    Searched(Option<ProjectRoot>),
    CurrentDir(Result<String, String>),
}

/// How far the search has come.
pub enum RootStage {
    /// The full path of the root that was asked for is looked up.
    Explicit(String),
    /// The project of that root is looked for.
    ExplicitScan(String),
    /// The name of the repository is looked for.
    ByName,
    /// The current directory is looked up.
    CurrentDir,
    /// The project around the start directory is looked for.
    Scan(String),
    /// The search has ended.
    Done,
}

/// The search for the project that a link belongs to.
pub struct RootSearch {
    pub kind: JumpLinkKind,
    pub path: String,
    /// The markers by which the project is found.
    pub markers: Markers,
    pub stage: RootStage,
}

/// What a [`RootAction`] says.
pub enum RootActionView {
    Canonicalize(Seq<char>),
    ScanFrom(Seq<char>, Option<Seq<Seq<char>>>),
    SearchByName(Seq<char>, Option<Seq<Seq<char>>>),
    CurrentDir,
    Found(RootView),
    Failed(LocateErrorView),
}

/// What a [`LocateError`] says.
pub enum LocateErrorView {
    Canonicalize(Seq<char>, Seq<char>),
    Scan(Seq<char>),
    CurrentDir(Seq<char>),
    NotFound(Seq<char>, Option<Seq<Seq<char>>>),
}

/// What a [`RootEvent`] says.
pub enum RootEventView {
    Canonical(Result<Seq<char>, Seq<char>>),
    Scanned(Result<Option<RootView>, Seq<char>>),
    Searched(Option<RootView>),
    CurrentDir(Result<Seq<char>, Seq<char>>),
}

/// What a [`RootStage`] says.
pub enum RootStageView {
    Explicit(Seq<char>),
    ExplicitScan(Seq<char>),
    ByName,
    CurrentDir,
    Scan(Seq<char>),
    Done,
}

/// What a [`RootSearch`] says.
pub struct RootSearchView {
    pub kind: JumpLinkKind,
    pub path: Seq<char>,
    pub markers: Option<Seq<Seq<char>>>,
    pub stage: RootStageView,
}

impl LocateError {
    /// What the error says.
    pub open spec fn view(self) -> LocateErrorView {
        match self {
            LocateError::Canonicalize { root, cause } => LocateErrorView::Canonicalize(
                root@,
                cause@,
            ),
            LocateError::Scan { cause } => LocateErrorView::Scan(cause@),
            LocateError::CurrentDir { cause } => LocateErrorView::CurrentDir(cause@),
            LocateError::NotFound { start, markers } => LocateErrorView::NotFound(
                start@,
                markers@,
            ),
        }
    }
}

impl RootAction {
    /// What the action says.
    pub open spec fn view(self) -> RootActionView {
        match self {
            RootAction::Canonicalize(root) => RootActionView::Canonicalize(root@),
            RootAction::ScanFrom { start, markers } => RootActionView::ScanFrom(start@, markers@),
            RootAction::SearchByName { name, markers } => RootActionView::SearchByName(
                name@,
                markers@,
            ),
            RootAction::CurrentDir => RootActionView::CurrentDir,
            RootAction::Found(root) => RootActionView::Found(root@),
            RootAction::Failed(error) => RootActionView::Failed(error@),
        }
    }
}

/// What the outcome of a lookup of a path says.
pub open spec fn path_outcome(r: Result<String, String>) -> Result<Seq<char>, Seq<char>> {
    match r {
        Ok(path) => Ok(path@),
        Err(cause) => Err(cause@),
    }
}

/// What an optional project says.
pub open spec fn opt_root(root: Option<ProjectRoot>) -> Option<RootView> {
    match root {
        Some(r) => Some(r@),
        None => None,
    }
}

impl RootEvent {
    /// What the event says.
    pub open spec fn view(self) -> RootEventView {
        match self {
            RootEvent::Canonical(r) => RootEventView::Canonical(path_outcome(r)),
            RootEvent::Scanned(r) => RootEventView::Scanned(
                match r {
                    Ok(found) => Ok(opt_root(found)),
                    Err(cause) => Err(cause@),
                },
            ),
            RootEvent::Searched(found) => RootEventView::Searched(opt_root(found)),
            RootEvent::CurrentDir(r) => RootEventView::CurrentDir(path_outcome(r)),
        }
    }
}

impl RootStage {
    /// What the stage says.
    pub open spec fn view(self) -> RootStageView {
        match self {
            RootStage::Explicit(root) => RootStageView::Explicit(root@),
            RootStage::ExplicitScan(root) => RootStageView::ExplicitScan(root@),
            RootStage::ByName => RootStageView::ByName,
            RootStage::CurrentDir => RootStageView::CurrentDir,
            RootStage::Scan(start) => RootStageView::Scan(start@),
            RootStage::Done => RootStageView::Done,
        }
    }
}

impl RootSearch {
    /// What the search says.
    pub open spec fn view(self) -> RootSearchView {
        RootSearchView {
            kind: self.kind,
            path: self.path@,
            markers: self.markers@,
            stage: self.stage@,
        }
    }
}

/// The directory of the file that an absolute path names.
pub open spec fn directory_of(path: Seq<char>) -> Seq<char> {
    match parent_of(path) {
        Some(directory) => directory,
        None => "/"@,
    }
}

/// The project that is taken where no marker shows one.
pub open spec fn manual_root(path: Seq<char>) -> RootView {
    root_at(path, "manual"@)
}

/// The search for a project around the start directory begins.
pub open spec fn begin_scan(
    kind: JumpLinkKind,
    path: Seq<char>,
    markers: Option<Seq<Seq<char>>>,
) -> (RootStageView, RootActionView) {
    if kind == JumpLinkKind::Absolute {
        (
            RootStageView::Scan(directory_of(path)),
            RootActionView::ScanFrom(directory_of(path), markers),
        )
    } else {
        (RootStageView::CurrentDir, RootActionView::CurrentDir)
    }
}

/// The search begins.
pub open spec fn begin_search(
    kind: JumpLinkKind,
    path: Seq<char>,
    repo_name: Option<Seq<char>>,
    requested_root: Option<Seq<char>>,
    markers: Option<Seq<Seq<char>>>,
) -> (RootStageView, RootActionView) {
    match requested_root {
        Some(root) => (RootStageView::Explicit(root), RootActionView::Canonicalize(root)),
        None => match repo_name {
            Some(name) => if kind == JumpLinkKind::Github {
                (RootStageView::ByName, RootActionView::SearchByName(name, markers))
            } else {
                begin_scan(kind, path, markers)
            },
            None => begin_scan(kind, path, markers),
        },
    }
}

/// The search ends without a project: for an absolute path with its directory.
pub open spec fn end_without(search: RootSearchView, error: LocateErrorView) -> (
    RootStageView,
    RootActionView,
) {
    if search.kind == JumpLinkKind::Absolute {
        (RootStageView::Done, RootActionView::Found(manual_root(directory_of(search.path))))
    } else {
        (RootStageView::Done, RootActionView::Failed(error))
    }
}

/// The event is what the stage waits for.
pub open spec fn awaits(stage: RootStageView, event: RootEventView) -> bool {
    match stage {
        RootStageView::Explicit(_) => event is Canonical,
        RootStageView::ExplicitScan(_) => event is Scanned,
        RootStageView::ByName => event is Searched,
        RootStageView::CurrentDir => event is CurrentDir,
        RootStageView::Scan(_) => event is Scanned,
        RootStageView::Done => false,
    }
}

/// The stage waits for what the action looks up; an action that looks nothing up ends the search.
pub open spec fn matches_action(stage: RootStageView, action: RootActionView) -> bool {
    match action {
        RootActionView::Canonicalize(root) => stage == RootStageView::Explicit(root),
        RootActionView::ScanFrom(start, _) => stage == RootStageView::Scan(start) || stage
            == RootStageView::ExplicitScan(start),
        RootActionView::SearchByName(_, _) => stage is ByName,
        RootActionView::CurrentDir => stage is CurrentDir,
        RootActionView::Found(_) => stage is Done,
        RootActionView::Failed(_) => stage is Done,
    }
}

/// The event is of the kind that performing the action gives.
pub open spec fn answers(action: RootActionView, event: RootEventView) -> bool {
    match action {
        RootActionView::Canonicalize(_) => event is Canonical,
        RootActionView::ScanFrom(_, _) => event is Scanned,
        RootActionView::SearchByName(_, _) => event is Searched,
        RootActionView::CurrentDir => event is CurrentDir,
        RootActionView::Found(_) => false,
        RootActionView::Failed(_) => false,
    }
}

/// How the search goes on.
pub open spec fn next_search(search: RootSearchView, event: RootEventView) -> (
    RootStageView,
    RootActionView,
) {
    match (search.stage, event) {
        (RootStageView::Explicit(root), RootEventView::Canonical(r)) => match r {
            Ok(path) => (
                RootStageView::ExplicitScan(path),
                RootActionView::ScanFrom(path, search.markers),
            ),
            Err(cause) => end_without(search, LocateErrorView::Canonicalize(root, cause)),
        },
        (RootStageView::ExplicitScan(root), RootEventView::Scanned(r)) => match r {
            Ok(Some(found)) => (RootStageView::Done, RootActionView::Found(found)),
            Ok(None) => (RootStageView::Done, RootActionView::Found(manual_root(root))),
            Err(cause) => end_without(search, LocateErrorView::Scan(cause)),
        },
        (RootStageView::ByName, RootEventView::Searched(r)) => match r {
            Some(found) => (RootStageView::Done, RootActionView::Found(found)),
            None => begin_scan(search.kind, search.path, search.markers),
        },
        (RootStageView::CurrentDir, RootEventView::CurrentDir(r)) => match r {
            Ok(path) => (
                RootStageView::Scan(path),
                RootActionView::ScanFrom(path, search.markers),
            ),
            Err(cause) => end_without(search, LocateErrorView::CurrentDir(cause)),
        },
        (RootStageView::Scan(start), RootEventView::Scanned(r)) => match r {
            Ok(Some(found)) => (RootStageView::Done, RootActionView::Found(found)),
            Ok(None) => end_without(search, LocateErrorView::NotFound(start, search.markers)),
            Err(cause) => end_without(search, LocateErrorView::Scan(cause)),
        },
        _ => (search.stage, RootActionView::CurrentDir),
    }
}

fn directory(path: &str) -> (r: String)
    ensures
        r@ == directory_of(path@),
{
    match parent(path) {
        Some(directory) => directory,
        None => "/".to_string(),
    }
}

fn start_scan(kind: JumpLinkKind, path: &str, markers: &Markers) -> (r: (RootStage, RootAction))
    ensures
        (r.0@, r.1@) == begin_scan(kind, path@, markers@),
{
    if kind == JumpLinkKind::Absolute {
        let start: String = directory(path);
        (
            RootStage::Scan(start.clone()),
            RootAction::ScanFrom { start, markers: markers.copy() },
        )
    } else {
        (RootStage::CurrentDir, RootAction::CurrentDir)
    }
}

/// Begins the search for the project of a link. `requested_root` is the root that was asked for,
/// and `markers` are the markers that were.
pub fn locate_root(
    request: &JumpRequest,
    requested_root: Option<&str>,
    markers: &Option<Vec<String>>,
) -> (r: (RootSearch, RootAction))
    ensures
        r.0.kind == request.kind,
        r.0.path@ == request.path@,
        r.0.markers@ == marker_views(*markers),
        (r.0.stage@, r.1@) == begin_search(
            request.kind,
            request.path@,
            opt_view(request.repo_name),
            opt_str(requested_root),
            marker_views(*markers),
        ),
        matches_action(r.0.stage@, r.1@),
{
    let kind: JumpLinkKind = request.kind;
    let path: String = request.path.clone();
    let markers: Markers = build_scanner(markers);
    if let Some(root) = requested_root {
        let stage: RootStage = RootStage::Explicit(root.to_string());
        let search: RootSearch = RootSearch { kind, path, markers, stage };
        return (search, RootAction::Canonicalize(root.to_string()));
    }
    if kind == JumpLinkKind::Github {
        if let Some(name) = &request.repo_name {
            let action: RootAction = RootAction::SearchByName {
                name: name.clone(),
                markers: markers.copy(),
            };
            return (RootSearch { kind, path, markers, stage: RootStage::ByName }, action);
        }
    }
    let (stage, action): (RootStage, RootAction) = start_scan(kind, path.as_str(), &markers);
    (RootSearch { kind, path, markers, stage }, action)
}

impl RootSearch {
    fn end(&self, error: LocateError) -> (r: (RootStage, RootAction))
        ensures
            (r.0@, r.1@) == end_without(self@, error@),
    {
        if self.kind == JumpLinkKind::Absolute {
            let root: ProjectRoot = ProjectRoot::new(
                directory(self.path.as_str()),
                "manual".to_string(),
            );
            (RootStage::Done, RootAction::Found(root))
        } else {
            (RootStage::Done, RootAction::Failed(error))
        }
    }

    /// Goes on with what was found, and says what to look up next.
    pub fn step(&mut self, event: RootEvent) -> (action: RootAction)
        requires
            awaits(old(self).stage@, event@),
        ensures
            final(self).kind == old(self).kind,
            final(self).path@ == old(self).path@,
            final(self).markers@ == old(self).markers@,
            (final(self).stage@, action@) == next_search(old(self)@, event@),
            matches_action(final(self).stage@, action@),
    {
        let mut current: RootStage = RootStage::Done;
        std::mem::swap(&mut current, &mut self.stage);
        let (stage, action): (RootStage, RootAction) = match (current, event) {
            (RootStage::Explicit(root), RootEvent::Canonical(r)) => match r {
                Ok(path) => (
                    RootStage::ExplicitScan(path.clone()),
                    RootAction::ScanFrom { start: path, markers: self.markers.copy() },
                ),
                Err(cause) => self.end(LocateError::Canonicalize { root, cause }),
            },
            (RootStage::ExplicitScan(root), RootEvent::Scanned(r)) => match r {
                Ok(Some(found)) => (RootStage::Done, RootAction::Found(found)),
                Ok(None) => {
                    let found: ProjectRoot = ProjectRoot::new(root, "manual".to_string());
                    (RootStage::Done, RootAction::Found(found))
                },
                Err(cause) => self.end(LocateError::Scan { cause }),
            },
            (RootStage::ByName, RootEvent::Searched(r)) => match r {
                Some(found) => (RootStage::Done, RootAction::Found(found)),
                None => start_scan(self.kind, self.path.as_str(), &self.markers),
            },
            (RootStage::CurrentDir, RootEvent::CurrentDir(r)) => match r {
                Ok(path) => (
                    RootStage::Scan(path.clone()),
                    RootAction::ScanFrom { start: path, markers: self.markers.copy() },
                ),
                Err(cause) => self.end(LocateError::CurrentDir { cause }),
            },
            (RootStage::Scan(start), RootEvent::Scanned(r)) => match r {
                Ok(Some(found)) => (RootStage::Done, RootAction::Found(found)),
                Ok(None) => {
                    let markers: Markers = self.markers.copy();
                    self.end(LocateError::NotFound { start, markers })
                },
                Err(cause) => self.end(LocateError::Scan { cause }),
            },
            (stage, _) => (stage, RootAction::CurrentDir),
        };
        self.stage = stage;
        action
    }
}

/// How many lookups may still follow.
pub open spec fn lookups_left(stage: RootStageView) -> nat {
    match stage {
        RootStageView::Done => 0,
        RootStageView::Scan(_) => 1,
        RootStageView::ExplicitScan(_) => 1,
        RootStageView::CurrentDir => 2,
        RootStageView::Explicit(_) => 2,
        RootStageView::ByName => 3,
    }
}

/// Each event is what the search waits for when it comes.
pub open spec fn is_run(search: RootSearchView, events: Seq<RootEventView>) -> bool
    decreases events.len(),
{
    events.len() == 0 || search.stage is Done || {
        &&& awaits(search.stage, events[0])
        &&& is_run(
            RootSearchView { stage: next_search(search, events[0]).0, ..search },
            events.drop_first(),
        )
    }
}

/// How far the search comes with the events, and what it then says.
pub open spec fn run_search(
    search: RootSearchView,
    action: RootActionView,
    events: Seq<RootEventView>,
) -> (RootStageView, RootActionView)
    decreases events.len(),
{
    if events.len() == 0 || search.stage is Done {
        (search.stage, action)
    } else {
        let (stage, next) = next_search(search, events[0]);
        run_search(RootSearchView { stage, ..search }, next, events.drop_first())
    }
}

/// The search ends: with a project or without one, after three lookups at most. For an absolute
/// path it ends with a project, whatever the lookups find.
pub proof fn lemma_search_ends(
    search: RootSearchView,
    action: RootActionView,
    events: Seq<RootEventView>,
)
    requires
        matches_action(search.stage, action),
        search.kind == JumpLinkKind::Absolute ==> action !is Failed,
        is_run(search, events),
        events.len() >= lookups_left(search.stage),
    ensures
        ({
            let (stage, last) = run_search(search, action, events);
            &&& stage is Done
            &&& last is Found || last is Failed
            &&& search.kind == JumpLinkKind::Absolute ==> last is Found
        }),
        lookups_left(search.stage) <= 3,
    decreases events.len(),
{
    if events.len() > 0 && search.stage !is Done {
        let (stage, next) = next_search(search, events[0]);
        lemma_search_ends(RootSearchView { stage, ..search }, next, events.drop_first());
    }
}

/// The search for the project of an absolute path does not fail, whatever the lookups find.
pub proof fn lemma_absolute_paths_succeed(
    path: Seq<char>,
    repo_name: Option<Seq<char>>,
    requested_root: Option<Seq<char>>,
    markers: Option<Seq<Seq<char>>>,
    events: Seq<RootEventView>,
)
    requires
        events.len() >= 3,
        ({
            let kind = JumpLinkKind::Absolute;
            let stage = begin_search(kind, path, repo_name, requested_root, markers).0;
            is_run(RootSearchView { kind, path, markers, stage }, events)
        }),
    ensures
        ({
            let kind = JumpLinkKind::Absolute;
            let (stage, action) = begin_search(kind, path, repo_name, requested_root, markers);
            let search = RootSearchView { kind, path, markers, stage };
            run_search(search, action, events).1 is Found
        }),
{
    let kind = JumpLinkKind::Absolute;
    let (stage, action) = begin_search(kind, path, repo_name, requested_root, markers);
    lemma_search_ends(RootSearchView { kind, path, markers, stage }, action, events);
}

/// An action that scans for projects goes by the markers.
pub open spec fn scans_by(action: RootActionView, markers: Option<Seq<Seq<char>>>) -> bool {
    match action {
        RootActionView::ScanFrom(_, given) => given == markers,
        RootActionView::SearchByName(_, given) => given == markers,
        RootActionView::Failed(LocateErrorView::NotFound(_, given)) => given == markers,
        _ => true,
    }
}

/// Every scan of a search goes by the markers that were asked for, from the first to the last.
pub proof fn lemma_scans_go_by_the_markers(
    search: RootSearchView,
    action: RootActionView,
    events: Seq<RootEventView>,
)
    requires
        scans_by(action, search.markers),
        is_run(search, events),
    ensures
        scans_by(run_search(search, action, events).1, search.markers),
    decreases events.len(),
{
    if events.len() > 0 && search.stage !is Done {
        let (stage, next) = next_search(search, events[0]);
        lemma_scans_go_by_the_markers(
            RootSearchView { stage, ..search },
            next,
            events.drop_first(),
        );
    }
}

/// The first action of a search goes by the markers that were asked for.
pub proof fn lemma_first_scan_goes_by_the_markers(
    kind: JumpLinkKind,
    path: Seq<char>,
    repo_name: Option<Seq<char>>,
    requested_root: Option<Seq<char>>,
    markers: Option<Seq<Seq<char>>>,
)
    ensures
        scans_by(begin_search(kind, path, repo_name, requested_root, markers).1, markers),
{
}

/// A root that was asked for goes before everything else: with its full path known and the scan
/// done, the search ends with the project there, or with the directory itself.
pub proof fn lemma_requested_root_comes_first(
    kind: JumpLinkKind,
    path: Seq<char>,
    repo_name: Option<Seq<char>>,
    root: Seq<char>,
    markers: Option<Seq<Seq<char>>>,
    full: Seq<char>,
    found: Option<RootView>,
)
    ensures
        ({
            let (first, action) = begin_search(kind, path, repo_name, Some(root), markers);
            let (second, scan) = next_search(
                RootSearchView { kind, path, markers, stage: first },
                RootEventView::Canonical(Ok(full)),
            );
            let (last, outcome) = next_search(
                RootSearchView { kind, path, markers, stage: second },
                RootEventView::Scanned(Ok(found)),
            );
            &&& action == RootActionView::Canonicalize(root)
            &&& scan == RootActionView::ScanFrom(full, markers)
            &&& last is Done
            &&& outcome == RootActionView::Found(
                match found {
                    Some(project) => project,
                    None => manual_root(full),
                },
            )
        }),
{
}

/// The name of a repository does not matter unless the link leads to GitHub.
pub proof fn lemma_names_are_for_github(
    kind: JumpLinkKind,
    path: Seq<char>,
    one: Option<Seq<char>>,
    other: Option<Seq<char>>,
    root: Option<Seq<char>>,
    markers: Option<Seq<Seq<char>>>,
)
    requires
        kind != JumpLinkKind::Github,
    ensures
        begin_search(kind, path, one, root, markers) == begin_search(
            kind,
            path,
            other,
            root,
            markers,
        ),
{
}

/// A project that was found is the outcome, whatever the link is: by a scan around the root that was
/// asked for, by its name, or by a scan around the start directory.
pub proof fn lemma_found_projects_are_taken(
    search: RootSearchView,
    event: RootEventView,
    project: RootView,
)
    requires
        awaits(search.stage, event),
        event == RootEventView::Scanned(Ok(Some(project))) || event == RootEventView::Searched(
            Some(project),
        ),
    ensures
        next_search(search, event) == (RootStageView::Done, RootActionView::Found(project)),
{
}

/// Without a root that was asked for, a link to GitHub is looked for by the name of its repository,
/// and then around the current directory. What is found first is the outcome; where nothing is, the
/// search fails.
pub proof fn lemma_github_links_are_searched_for(
    path: Seq<char>,
    name: Seq<char>,
    markers: Option<Seq<Seq<char>>>,
    named: Option<RootView>,
    directory: Seq<char>,
    around: Option<RootView>,
)
    ensures
        ({
            let kind = JumpLinkKind::Github;
            let (stage, action) = begin_search(kind, path, Some(name), None, markers);
            let search = RootSearchView { kind, path, markers, stage };
            let events = seq![
                RootEventView::Searched(named),
                RootEventView::CurrentDir(Ok(directory)),
                RootEventView::Scanned(Ok(around)),
            ];
            &&& action == RootActionView::SearchByName(name, markers)
            &&& is_run(search, events)
            &&& run_search(search, action, events.take(2)).1 == match named {
                Some(project) => RootActionView::Found(project),
                None => RootActionView::ScanFrom(directory, markers),
            }
            &&& run_search(search, action, events).1 == match (named, around) {
                (Some(project), _) => RootActionView::Found(project),
                (None, Some(project)) => RootActionView::Found(project),
                (None, None) => RootActionView::Failed(
                    LocateErrorView::NotFound(directory, markers),
                ),
            }
        }),
{
    let kind = JumpLinkKind::Github;
    let (stage, action) = begin_search(kind, path, Some(name), None, markers);
    let search = RootSearchView { kind, path, markers, stage };
    let events = seq![
        RootEventView::Searched(named),
        RootEventView::CurrentDir(Ok(directory)),
        RootEventView::Scanned(Ok(around)),
    ];
    reveal_with_fuel(run_search, 4);
    reveal_with_fuel(is_run, 4);
    assert(events.drop_first()[0] == events[1]);
    assert(events.drop_first().drop_first()[0] == events[2]);
    assert(events.take(2)[0] == events[0]);
    assert(events.take(2).drop_first()[0] == events[1]);
}

/// Without a root that was asked for, a relative link, and one to GitHub without a repository, is
/// searched for around the current directory.
pub proof fn lemma_links_are_searched_for_around_the_current_directory(
    kind: JumpLinkKind,
    path: Seq<char>,
    repo_name: Option<Seq<char>>,
    markers: Option<Seq<Seq<char>>>,
    directory: Seq<char>,
    around: Option<RootView>,
)
    requires
        kind == JumpLinkKind::Relative || kind == JumpLinkKind::Github && repo_name is None,
    ensures
        ({
            let (stage, action) = begin_search(kind, path, repo_name, None, markers);
            let search = RootSearchView { kind, path, markers, stage };
            let (second, scan) = next_search(search, RootEventView::CurrentDir(Ok(directory)));
            let after = RootSearchView { stage: second, ..search };
            &&& action == RootActionView::CurrentDir
            &&& scan == RootActionView::ScanFrom(directory, markers)
            &&& next_search(after, RootEventView::Scanned(Ok(around))).1 == match around {
                Some(project) => RootActionView::Found(project),
                None => RootActionView::Failed(LocateErrorView::NotFound(directory, markers)),
            }
        }),
{
}

/// Without a root that was asked for, an absolute link is searched for around the directory of its
/// file, and without a project there that directory is taken: it is named like itself, and its
/// marker says that nobody has set one.
pub proof fn lemma_absolute_links_are_searched_for_around_their_files(
    path: Seq<char>,
    repo_name: Option<Seq<char>>,
    markers: Option<Seq<Seq<char>>>,
    scanned: Result<Option<RootView>, Seq<char>>,
)
    ensures
        ({
            let kind = JumpLinkKind::Absolute;
            let (stage, action) = begin_search(kind, path, repo_name, None, markers);
            let search = RootSearchView { kind, path, markers, stage };
            let directory = match parent_of(path) {
                Some(above) => above,
                None => "/"@,
            };
            &&& action == RootActionView::ScanFrom(directory, markers)
            &&& next_search(search, RootEventView::Scanned(scanned)) == (
                RootStageView::Done,
                match scanned {
                    Ok(Some(project)) => RootActionView::Found(project),
                    _ => RootActionView::Found(
                        RootView {
                            path: directory,
                            name: match file_name_of(directory) {
                                Some(name) => name,
                                None => directory,
                            },
                            marker: "manual"@,
                        },
                    ),
                },
            )
        }),
{
}

/// A lookup that fails ends the search: for an absolute path with the directory of its file, else
/// with the failure itself.
pub proof fn lemma_failed_lookups_end_the_search(
    search: RootSearchView,
    event: RootEventView,
    cause: Seq<char>,
)
    requires
        awaits(search.stage, event),
        event == RootEventView::Canonical(Err(cause)) || event == RootEventView::Scanned(Err(cause))
            || event == RootEventView::CurrentDir(Err(cause)),
    ensures
        ({
            let (stage, action) = next_search(search, event);
            &&& stage is Done
            &&& search.kind == JumpLinkKind::Absolute ==> (action matches RootActionView::Found(
                root,
            ) && root.path == match parent_of(search.path) {
                Some(above) => above,
                None => "/"@,
            } && root.marker == "manual"@)
            &&& search.kind != JumpLinkKind::Absolute ==> action == RootActionView::Failed(
                match search.stage {
                    RootStageView::Explicit(root) => LocateErrorView::Canonicalize(root, cause),
                    RootStageView::CurrentDir => LocateErrorView::CurrentDir(cause),
                    _ => LocateErrorView::Scan(cause),
                },
            )
        }),
{
}

/// The letter `c` in lower case, where it is a letter of ASCII.
pub open spec fn lower_ascii(c: char) -> char {
    if 'A' <= c && c <= 'Z' {
        (c as int + 32) as char
    } else {
        c
    }
}

/// Two names are the same but for the case of the letters of ASCII.
pub open spec fn same_ignoring_case(a: Seq<char>, b: Seq<char>) -> bool {
    &&& a.len() == b.len()
    &&& forall|i: int| 0 <= i < a.len() ==> lower_ascii(#[trigger] a[i]) == lower_ascii(b[i])
}

/// Whether two names are the same but for the case of the letters of ASCII.
pub fn equal_ignoring_case(a: &str, b: &str) -> (r: bool)
    ensures
        r == same_ignoring_case(a@, b@),
{
    let x: Vec<char> = chars_of(a);
    let y: Vec<char> = chars_of(b);
    if x.len() != y.len() {
        return false;
    }
    let mut i: usize = 0;
    while i < x.len()
        invariant
            i <= x.len(),
            x.len() == y.len(),
            x@ == a@,
            y@ == b@,
            forall|j: int| 0 <= j < i ==> lower_ascii(#[trigger] a@[j]) == lower_ascii(b@[j]),
        decreases x.len() - i,
    {
        if lower(x[i]) != lower(y[i]) {
            assert(lower_ascii(a@[i as int]) != lower_ascii(b@[i as int]));
            return false;
        }
        i += 1;
    }
    true
}

fn lower(c: char) -> (r: u32)
    ensures
        r == lower_ascii(c) as u32,
{
    let code: u32 = c as u32;
    if 65 <= code && code <= 90 {
        code + 32
    } else {
        code
    }
}

/// Two names are the same but for the case just where each two letters are equal, or one is the
/// capital of the other.
pub proof fn lemma_case_does_not_matter(a: Seq<char>, b: Seq<char>)
    ensures
        same_ignoring_case(a, b) <==> a.len() == b.len() && forall|i: int|
            0 <= i < a.len() ==> {
                ||| (#[trigger] a[i]) == b[i]
                ||| 'A' <= a[i] && a[i] <= 'Z' && b[i] as int == a[i] as int + 32
                ||| 'A' <= b[i] && b[i] <= 'Z' && a[i] as int == b[i] as int + 32
            },
        same_ignoring_case(a, a),
        same_ignoring_case(a, b) == same_ignoring_case(b, a),
{
    if a.len() == b.len() {
        assert forall|i: int| 0 <= i < a.len() implies (lower_ascii(#[trigger] a[i])
            == lower_ascii(b[i]) <==> {
            ||| a[i] == b[i]
            ||| 'A' <= a[i] && a[i] <= 'Z' && b[i] as int == a[i] as int + 32
            ||| 'A' <= b[i] && b[i] <= 'Z' && a[i] as int == b[i] as int + 32
        }) by {}
        if same_ignoring_case(a, b) {
            assert forall|i: int| 0 <= i < b.len() implies lower_ascii(#[trigger] b[i])
                == lower_ascii(a[i]) by {
                assert(lower_ascii(a[i]) == lower_ascii(b[i]));
            }
        }
        if same_ignoring_case(b, a) {
            assert forall|i: int| 0 <= i < a.len() implies lower_ascii(#[trigger] a[i])
                == lower_ascii(b[i]) by {
                assert(lower_ascii(b[i]) == lower_ascii(a[i]));
            }
        }
    }
}

/// The first of `projects` that has the name.
pub open spec fn first_named(projects: Seq<ProjectRoot>, name: Seq<char>) -> Option<RootView>
    decreases projects.len(),
{
    if projects.len() == 0 {
        None
    } else if same_ignoring_case(projects[0].name@, name) {
        Some(projects[0]@)
    } else {
        first_named(projects.drop_first(), name)
    }
}

/// The first project that has the name, in the order of the directories that were scanned. A
/// directory that could not be scanned has none.
pub open spec fn first_named_in(scans: Seq<Option<Vec<ProjectRoot>>>, name: Seq<char>) -> Option<
    RootView,
>
    decreases scans.len(),
{
    if scans.len() == 0 {
        None
    } else {
        let here = match scans[0] {
            Some(projects) => first_named(projects@, name),
            None => None,
        };
        match here {
            Some(project) => Some(project),
            None => first_named_in(scans.drop_first(), name),
        }
    }
}

fn find_named(projects: &Vec<ProjectRoot>, name: &str) -> (r: Option<ProjectRoot>)
    ensures
        opt_root(r) == first_named(projects@, name@),
{
    let mut i: usize = 0;
    assert(projects@.skip(0) =~= projects@);
    while i < projects.len()
        invariant
            i <= projects.len(),
            first_named(projects@.skip(i as int), name@) == first_named(projects@, name@),
        decreases projects.len() - i,
    {
        assert(projects@.skip(i as int).drop_first() =~= projects@.skip(i + 1));
        if equal_ignoring_case(projects[i].name.as_str(), name) {
            return Some(projects[i].copy());
        }
        i += 1;
    }
    None
}

/// The first project with the name of a repository, in the order of the directories that were
/// scanned. A directory that could not be scanned has none.
pub fn find_project_by_name(repo_name: &str, scans: &Vec<Option<Vec<ProjectRoot>>>) -> (r: Option<
    ProjectRoot,
>)
    ensures
        opt_root(r) == first_named_in(scans@, repo_name@),
{
    let mut i: usize = 0;
    assert(scans@.skip(0) =~= scans@);
    while i < scans.len()
        invariant
            i <= scans.len(),
            first_named_in(scans@.skip(i as int), repo_name@) == first_named_in(
                scans@,
                repo_name@,
            ),
        decreases scans.len() - i,
    {
        assert(scans@.skip(i as int).drop_first() =~= scans@.skip(i + 1));
        if let Some(projects) = &scans[i] {
            if let Some(project) = find_named(projects, repo_name) {
                return Some(project);
            }
        }
        i += 1;
    }
    None
}

/// The project that is found among others is the first one of its name.
pub proof fn lemma_first_project_of_the_name(projects: Seq<ProjectRoot>, name: Seq<char>)
    ensures
        match first_named(projects, name) {
            Some(found) => exists|i: int|
                {
                    &&& 0 <= i < projects.len()
                    &&& found == (#[trigger] projects[i])@
                    &&& same_ignoring_case(projects[i].name@, name)
                    &&& forall|j: int|
                        0 <= j < i ==> !same_ignoring_case((#[trigger] projects[j]).name@, name)
                },
            None => forall|i: int|
                0 <= i < projects.len() ==> !same_ignoring_case(
                    (#[trigger] projects[i]).name@,
                    name,
                ),
        },
    decreases projects.len(),
{
    if projects.len() > 0 {
        let rest = projects.drop_first();
        if same_ignoring_case(projects[0].name@, name) {
            assert(projects[0]@ == first_named(projects, name)->0);
        } else {
            lemma_first_project_of_the_name(rest, name);
            match first_named(rest, name) {
                Some(found) => {
                    let i = choose|i: int|
                        {
                            &&& 0 <= i < rest.len()
                            &&& found == (#[trigger] rest[i])@
                            &&& same_ignoring_case(rest[i].name@, name)
                            &&& forall|j: int|
                                0 <= j < i ==> !same_ignoring_case((#[trigger] rest[j]).name@, name)
                        };
                    assert(projects[i + 1] == rest[i]);
                    assert forall|j: int| 0 <= j < i + 1 implies !same_ignoring_case(
                        (#[trigger] projects[j]).name@,
                        name,
                    ) by {
                        if j > 0 {
                            assert(rest[j - 1] == projects[j]);
                        }
                    }
                },
                None => {
                    assert forall|i: int| 0 <= i < projects.len() implies !same_ignoring_case(
                        (#[trigger] projects[i]).name@,
                        name,
                    ) by {
                        if i > 0 {
                            assert(rest[i - 1] == projects[i]);
                        }
                    }
                },
            }
        }
    }
}

/// The directories are searched in their order: one that could not be scanned, or that has no
/// project of the name, changes nothing, and one that has such a project decides.
pub proof fn lemma_first_directory_with_the_name_decides(
    before: Seq<Option<Vec<ProjectRoot>>>,
    projects: Vec<ProjectRoot>,
    after: Seq<Option<Vec<ProjectRoot>>>,
    name: Seq<char>,
)
    requires
        forall|i: int|
            0 <= i < before.len() ==> ((#[trigger] before[i]) matches Some(list) ==> first_named(
                list@,
                name,
            ) is None),
    ensures
        first_named_in(before, name) is None,
        first_named(projects@, name) is Some ==> first_named_in(
            before + seq![Some(projects)] + after,
            name,
        ) == first_named(projects@, name),
        first_named(projects@, name) is None ==> first_named_in(
            before + seq![Some(projects)] + after,
            name,
        ) == first_named_in(after, name),
        first_named_in(before + seq![None] + after, name) == first_named_in(after, name),
    decreases before.len(),
{
    let with = before + seq![Some(projects)] + after;
    let without = before + seq![None] + after;
    if before.len() == 0 {
        assert(with.drop_first() =~= after);
        assert(without.drop_first() =~= after);
    } else {
        let rest = before.drop_first();
        assert forall|i: int| 0 <= i < rest.len() implies ((#[trigger] rest[i]) matches Some(list)
            ==> first_named(list@, name) is None) by {
            assert(rest[i] == before[i + 1]);
        }
        assert(before[0] matches Some(list) ==> first_named(list@, name) is None);
        lemma_first_directory_with_the_name_decides(rest, projects, after, name);
        assert(with.drop_first() =~= rest + seq![Some(projects)] + after);
        assert(without.drop_first() =~= rest + seq![None] + after);
    }
}

/// What a search says, and what it is told, are the texts in its actions and in the events.
pub proof fn lemma_searches_say_what_they_hold(
    text: String,
    root: ProjectRoot,
    markers: Markers,
    list: Vec<String>,
)
    ensures
        Markers::Defaults@ is None,
        Markers::Custom(list)@ == Some(string_views(list@)),
        RootAction::Canonicalize(text)@ == RootActionView::Canonicalize(text@),
        (RootAction::ScanFrom { start: text, markers })@ == RootActionView::ScanFrom(
            text@,
            markers@,
        ),
        (RootAction::SearchByName { name: text, markers })@ == RootActionView::SearchByName(
            text@,
            markers@,
        ),
        RootAction::Found(root)@ == RootActionView::Found(root@),
        RootEvent::Canonical(Ok(text))@ == RootEventView::Canonical(Ok(text@)),
        RootEvent::Canonical(Err(text))@ == RootEventView::Canonical(Err(text@)),
        RootEvent::Scanned(Ok(Some(root)))@ == RootEventView::Scanned(Ok(Some(root@))),
        RootEvent::Scanned(Ok(None))@ == RootEventView::Scanned(Ok(None)),
        RootEvent::Scanned(Err(text))@ == RootEventView::Scanned(Err(text@)),
        RootEvent::Searched(Some(root))@ == RootEventView::Searched(Some(root@)),
        RootEvent::Searched(None)@ == RootEventView::Searched(None),
        RootEvent::CurrentDir(Ok(text))@ == RootEventView::CurrentDir(Ok(text@)),
        RootEvent::CurrentDir(Err(text))@ == RootEventView::CurrentDir(Err(text@)),
{
}

} // verus!
