//! The way from a file to an editor that shows it.
//!
//! A session of tmux is looked for that belongs to the project; where there is none, one is made.
//! An editor that runs in the session is told to open the file, or a new one is started there.
//! Then the session is brought to the front. Each of these is done outside; the jump says what
//! comes next.
//!
//! A session belongs to the project by, in this order:
//! 1. the name of the repository, for a link to GitHub;
//! 2. the path of the project;
//! 3. the name of a directory above the project, the nearest one first;
//! 4. the name of the project.

use vstd::prelude::*;
use vstd::string::*;

use crate::app::locate::marker_views;
use crate::app::requests::{JumpInput, JumpOutcome, ResolveLinkOutput, ResolveLinkRequest};
use crate::app::resolve::{
    is_consistent, resolution_begins, resolve_link, LinkResolution, ResolveAction,
};
use crate::paths::{
    file_name, file_name_of, is_entry, lemma_parent_is_shorter, lemma_spelled_paths, parent,
    parent_of, spelled,
};
use crate::records::{
    InstanceView, JumpLinkKind, JumpRequest, MaterializedPath, NvimInstance, NvimPaneInfo,
    PaneView, ProjectRoot, RootView, SessionInfo, SessionView,
};
use crate::text::opt_view;

verus! {

/// What a session is looked for by.
#[derive(Debug)]
pub enum SessionLookup {
    /// The name of the session.
    ByName(String),
    /// The path of the project.
    ByPath,
}

/// What a [`SessionLookup`] says.
pub enum LookupView {
    ByName(Seq<char>),
    ByPath,
}

impl SessionLookup {
    /// What the lookup says.
    pub open spec fn view(self) -> LookupView {
        match self {
            SessionLookup::ByName(name) => LookupView::ByName(name@),
            SessionLookup::ByPath => LookupView::ByPath,
        }
    }
}

/// What a list of lookups says.
pub open spec fn lookup_views(lookups: Seq<SessionLookup>) -> Seq<LookupView> {
    lookups.map_values(|lookup: SessionLookup| lookup@)
}

/// The lookups by the names of the directories above a path, the nearest one first.
pub open spec fn lookups_above(path: Seq<char>) -> Seq<LookupView>
    decreases path.len(),
{
    match parent_of(path) {
        Some(above) => {
            proof {
                lemma_parent_is_shorter(path);
            }
            let here = match file_name_of(above) {
                Some(name) => seq![LookupView::ByName(name)],
                None => seq![],
            };
            here + lookups_above(above)
        },
        None => seq![],
    }
}

/// The lookup by the name of the repository, for a link to GitHub that has one.
pub open spec fn by_repo(kind: JumpLinkKind, repo_name: Option<Seq<char>>) -> Seq<LookupView> {
    match repo_name {
        Some(name) => if kind == JumpLinkKind::Github {
            seq![LookupView::ByName(name)]
        } else {
            seq![]
        },
        None => seq![],
    }
}

/// The lookups by which the session of a project is found, in their order.
pub open spec fn lookup_list(
    kind: JumpLinkKind,
    repo_name: Option<Seq<char>>,
    root: RootView,
) -> Seq<LookupView> {
    by_repo(kind, repo_name) + seq![LookupView::ByPath] + lookups_above(root.path) + seq![
        LookupView::ByName(root.name),
    ]
}

fn push_lookups_above(path: &str, lookups: &mut Vec<SessionLookup>)
    ensures
        lookup_views(final(lookups)@) == lookup_views(old(lookups)@) + lookups_above(path@),
    decreases path@.len(),
{
    let ghost before = lookup_views(lookups@);
    match parent(path) {
        Some(above) => {
            proof {
                lemma_parent_is_shorter(path@);
            }
            let ghost rest = lookups_above(above@);
            match file_name(above.as_str()) {
                Some(name) => {
                    lookups.push(SessionLookup::ByName(name.to_string()));
                    let ghost here = seq![LookupView::ByName(name@)];
                    assert(lookup_views(lookups@) =~= before + here);
                    assert(before + here + rest =~= before + (here + rest));
                },
                None => {
                    assert(Seq::<LookupView>::empty() + rest =~= rest);
                },
            }
            push_lookups_above(above.as_str(), lookups);
        },
        None => {
            assert(before + Seq::<LookupView>::empty() =~= before);
        },
    }
}

/// The lookups by which the session of a project is found, in their order.
pub fn find_matching_tmux_session(request: &JumpRequest, root: &ProjectRoot) -> (r: Vec<
    SessionLookup,
>)
    ensures
        lookup_views(r@) == lookup_list(request.kind, opt_view(request.repo_name), root@),
{
    let mut lookups: Vec<SessionLookup> = Vec::new();
    if request.kind == JumpLinkKind::Github {
        if let Some(name) = &request.repo_name {
            lookups.push(SessionLookup::ByName(name.clone()));
        }
    }
    lookups.push(SessionLookup::ByPath);
    assert(lookup_views(lookups@) =~= by_repo(request.kind, opt_view(request.repo_name)) + seq![
        LookupView::ByPath,
    ]);
    push_lookups_above(root.path.as_str(), &mut lookups);
    let ghost done = lookup_views(lookups@);
    lookups.push(SessionLookup::ByName(root.name.clone()));
    assert(lookup_views(lookups@) =~= done + seq![LookupView::ByName(root.name@)]);
    lookups
}

/// What a [`JumpOutcome`] says.
pub struct OutcomeView {
    pub status: Seq<char>,
    pub session: Seq<char>,
    pub file: Seq<char>,
    pub line: Option<u32>,
}

impl JumpOutcome {
    /// What the outcome says.
    pub open spec fn view(self) -> OutcomeView {
        OutcomeView {
            status: self.status@,
            session: self.session@,
            file: self.file@,
            line: self.line,
        }
    }
}

/// What a jump into a session says that has opened a file.
pub open spec fn success(session: Seq<char>, file: Seq<char>, line: Option<u32>) -> OutcomeView {
    OutcomeView { status: "success"@, session, file, line }
}

/// What a jump into a session says that has opened its file.
pub fn build_outcome(session_name: String, target: &MaterializedPath) -> (r: JumpOutcome)
    ensures
        r@ == success(session_name@, target.absolute@, target.line),
{
    JumpOutcome {
        status: "success".to_string(),
        session: session_name,
        file: target.absolute.clone(),
        line: target.line,
    }
}

/// What to do next, or how the jump has ended.
pub enum JumpAction {
    /// Look for a session.
    Lookup(SessionLookup),
    /// Look for a pane of the session in which an editor runs.
    FindPane(String),
    /// Tell an editor to open the file.
    OpenInEditor(NvimInstance),
    /// Look for the terminal to bring to the front.
    FindTerminal,
    /// Bring the terminal of a process to the front.
    FocusTerminal(u32),
    /// Show the session in the terminal of a process.
    SwitchClient { pid: u32, session: String },
    /// Select a pane.
    SelectPane(NvimPaneInfo),
    /// Start an editor with the file in a new window of the session.
    OpenWindow { session: String, directory: String },
    /// Look for the session of the project once more.
    FindRepoSession,
    /// Make a session.
    Spawn { name: String, directory: String },
    /// Look for an editor that belongs to the session.
    LocateEditor(SessionInfo),
    /// Bring the session to the front.
    Activate(String),
    /// The file is open.
    Finished(JumpOutcome),
    /// The file could not be opened.
    Failed(String),
}

/// A pane in which an editor runs, and the socket of that editor.
pub struct FoundPane {
    pub pane: NvimPaneInfo,
    pub socket: String,
    pub socket_exists: bool,
}

/// What an action has given.
pub enum JumpEvent {
    /// A lookup for a session.
    Session(Result<Option<SessionInfo>, String>),
    /// The search for a pane.
    Pane(Result<Option<FoundPane>, String>),
    /// The attempt to open the file.
    Opened(Result<(), String>),
    /// The search for the terminal.
    Terminal(Option<u32>),
    /// An attempt to bring something to the front.
    Shown,
    /// The attempt to make a session.
    Spawned(Result<SessionInfo, String>),
    /// The search for an editor.
    Editor(Result<Option<NvimInstance>, String>),
}

/// What is brought to the front behind the terminal.
pub enum Front {
    Pane(NvimPaneInfo),
    Session,
}

/// How far the jump has come.
pub enum JumpStage {
    /// The session is looked for; the lookups that are left.
    Matching(Vec<SessionLookup>),
    /// A pane of the session is looked for.
    FindingPane(String),
    /// The editor in the pane opens the file.
    OpeningInPane { session: String, pane: NvimPaneInfo },
    /// A new window of the session opens the file.
    OpeningWindow(String),
    /// The terminal is looked for.
    FindingTerminal { session: String, front: Front },
    /// The terminal is brought to the front.
    Focusing { session: String, pid: u32, front: Front },
    /// The session is shown in the terminal.
    Switching { session: String, front: Front },
    /// The session of the project is looked for once more.
    Ensuring,
    /// A session is made.
    Spawning,
    /// An editor is looked for.
    Locating(String),
    /// An editor or a new window of a session opens the file.
    OpeningDirectly(String),
    /// The pane or the session is brought to the front.
    Showing(String),
    /// The jump has ended.
    Done,
}

/// The way from a file to an editor that shows it.
pub struct Jump {
    pub root: ProjectRoot,
    pub target: MaterializedPath,
    pub stage: JumpStage,
}

/// What a [`JumpAction`] says.
pub enum JumpActionView {
    Lookup(LookupView),
    FindPane(Seq<char>),
    OpenInEditor(InstanceView),
    FindTerminal,
    FocusTerminal(u32),
    SwitchClient(u32, Seq<char>),
    SelectPane(PaneView),
    OpenWindow(Seq<char>, Seq<char>),
    FindRepoSession,
    Spawn(Seq<char>, Seq<char>),
    LocateEditor(SessionView),
    Activate(Seq<char>),
    Finished(OutcomeView),
    Failed(Seq<char>),
}

/// What a [`JumpEvent`] says.
pub enum JumpEventView {
    Session(Result<Option<SessionView>, Seq<char>>),
    Pane(Result<Option<(PaneView, Seq<char>, bool)>, Seq<char>>),
    Opened(Result<(), Seq<char>>),
    Terminal(Option<u32>),
    Shown,
    Spawned(Result<SessionView, Seq<char>>),
    Editor(Result<Option<InstanceView>, Seq<char>>),
}

/// What a [`Front`] says.
pub enum FrontView {
    Pane(PaneView),
    Session,
}

/// What a [`JumpStage`] says.
pub enum JumpStageView {
    Matching(Seq<LookupView>),
    FindingPane(Seq<char>),
    OpeningInPane(Seq<char>, PaneView),
    OpeningWindow(Seq<char>),
    FindingTerminal(Seq<char>, FrontView),
    Focusing(Seq<char>, u32, FrontView),
    Switching(Seq<char>, FrontView),
    Ensuring,
    Spawning,
    Locating(Seq<char>),
    OpeningDirectly(Seq<char>),
    Showing(Seq<char>),
    Done,
}

/// What a jump is for: the project, the file and the line.
pub struct Purpose {
    pub root: RootView,
    pub file: Seq<char>,
    pub line: Option<u32>,
}

impl JumpAction {
    /// What the action says.
    pub open spec fn view(self) -> JumpActionView {
        match self {
            JumpAction::Lookup(lookup) => JumpActionView::Lookup(lookup@),
            JumpAction::FindPane(session) => JumpActionView::FindPane(session@),
            JumpAction::OpenInEditor(instance) => JumpActionView::OpenInEditor(instance@),
            JumpAction::FindTerminal => JumpActionView::FindTerminal,
            JumpAction::FocusTerminal(pid) => JumpActionView::FocusTerminal(pid),
            JumpAction::SwitchClient { pid, session } => JumpActionView::SwitchClient(
                pid,
                session@,
            ),
            JumpAction::SelectPane(pane) => JumpActionView::SelectPane(pane@),
            JumpAction::OpenWindow { session, directory } => JumpActionView::OpenWindow(
                session@,
                directory@,
            ),
            JumpAction::FindRepoSession => JumpActionView::FindRepoSession,
            JumpAction::Spawn { name, directory } => JumpActionView::Spawn(name@, directory@),
            JumpAction::LocateEditor(session) => JumpActionView::LocateEditor(session@),
            JumpAction::Activate(session) => JumpActionView::Activate(session@),
            JumpAction::Finished(outcome) => JumpActionView::Finished(outcome@),
            JumpAction::Failed(cause) => JumpActionView::Failed(cause@),
        }
    }
}

impl JumpEvent {
    /// What the event says.
    pub open spec fn view(self) -> JumpEventView {
        match self {
            JumpEvent::Session(r) => JumpEventView::Session(
                match r {
                    Ok(Some(session)) => Ok(Some(session@)),
                    Ok(None) => Ok(None),
                    Err(cause) => Err(cause@),
                },
            ),
            JumpEvent::Pane(r) => JumpEventView::Pane(
                match r {
                    Ok(Some(found)) => Ok(Some((found.pane@, found.socket@, found.socket_exists))),
                    Ok(None) => Ok(None),
                    Err(cause) => Err(cause@),
                },
            ),
            JumpEvent::Opened(r) => JumpEventView::Opened(
                match r {
                    Ok(()) => Ok(()),
                    Err(cause) => Err(cause@),
                },
            ),
            JumpEvent::Terminal(pid) => JumpEventView::Terminal(pid),
            JumpEvent::Shown => JumpEventView::Shown,
            JumpEvent::Spawned(r) => JumpEventView::Spawned(
                match r {
                    Ok(session) => Ok(session@),
                    Err(cause) => Err(cause@),
                },
            ),
            JumpEvent::Editor(r) => JumpEventView::Editor(
                match r {
                    Ok(Some(instance)) => Ok(Some(instance@)),
                    Ok(None) => Ok(None),
                    Err(cause) => Err(cause@),
                },
            ),
        }
    }
}

impl Front {
    /// What is brought to the front.
    pub open spec fn view(self) -> FrontView {
        match self {
            Front::Pane(pane) => FrontView::Pane(pane@),
            Front::Session => FrontView::Session,
        }
    }
}

impl JumpStage {
    /// What the stage says.
    pub open spec fn view(self) -> JumpStageView {
        match self {
            JumpStage::Matching(lookups) => JumpStageView::Matching(lookup_views(lookups@)),
            JumpStage::FindingPane(session) => JumpStageView::FindingPane(session@),
            JumpStage::OpeningInPane { session, pane } => JumpStageView::OpeningInPane(
                session@,
                pane@,
            ),
            JumpStage::OpeningWindow(session) => JumpStageView::OpeningWindow(session@),
            JumpStage::FindingTerminal { session, front } => JumpStageView::FindingTerminal(
                session@,
                front@,
            ),
            JumpStage::Focusing { session, pid, front } => JumpStageView::Focusing(
                session@,
                pid,
                front@,
            ),
            JumpStage::Switching { session, front } => JumpStageView::Switching(session@, front@),
            JumpStage::Ensuring => JumpStageView::Ensuring,
            JumpStage::Spawning => JumpStageView::Spawning,
            JumpStage::Locating(session) => JumpStageView::Locating(session@),
            JumpStage::OpeningDirectly(session) => JumpStageView::OpeningDirectly(session@),
            JumpStage::Showing(session) => JumpStageView::Showing(session@),
            JumpStage::Done => JumpStageView::Done,
        }
    }
}

impl Jump {
    /// What the jump is for.
    pub open spec fn purpose(self) -> Purpose {
        Purpose { root: self.root@, file: self.target.absolute@, line: self.target.line }
    }
}

/// The event is what the stage waits for.
pub open spec fn jump_awaits(stage: JumpStageView, event: JumpEventView) -> bool {
    match stage {
        JumpStageView::Matching(_) => event is Session,
        JumpStageView::FindingPane(_) => event is Pane,
        JumpStageView::OpeningInPane(_, _) => event is Opened,
        JumpStageView::OpeningWindow(_) => event is Opened,
        JumpStageView::FindingTerminal(_, _) => event is Terminal,
        JumpStageView::Focusing(_, _, _) => event is Shown,
        JumpStageView::Switching(_, _) => event is Shown,
        JumpStageView::Ensuring => event is Session,
        JumpStageView::Spawning => event is Spawned,
        JumpStageView::Locating(_) => event is Editor,
        JumpStageView::OpeningDirectly(_) => event is Opened,
        JumpStageView::Showing(_) => event is Shown,
        JumpStageView::Done => false,
    }
}

/// The jump fails.
pub open spec fn jump_fails(cause: Seq<char>) -> (JumpStageView, JumpActionView) {
    (JumpStageView::Done, JumpActionView::Failed(cause))
}

/// The next lookup, or, where none is left, the session of the project once more.
pub open spec fn next_lookup(lookups: Seq<LookupView>) -> (JumpStageView, JumpActionView) {
    if lookups.len() > 0 {
        (JumpStageView::Matching(lookups.drop_first()), JumpActionView::Lookup(lookups[0]))
    } else {
        (JumpStageView::Ensuring, JumpActionView::FindRepoSession)
    }
}

/// The pane or the session is brought to the front.
pub open spec fn show(session: Seq<char>, front: FrontView) -> (JumpStageView, JumpActionView) {
    (
        JumpStageView::Showing(session),
        match front {
            FrontView::Pane(pane) => JumpActionView::SelectPane(pane),
            FrontView::Session => JumpActionView::Activate(session),
        },
    )
}

/// The terminal is looked for.
pub open spec fn find_terminal(session: Seq<char>, front: FrontView) -> (
    JumpStageView,
    JumpActionView,
) {
    (JumpStageView::FindingTerminal(session, front), JumpActionView::FindTerminal)
}

/// How the editor in a pane is reached.
pub open spec fn instance_in(session: Seq<char>, root: RootView, socket: Seq<char>) -> InstanceView {
    InstanceView { address: socket, session_name: Some(session), cwd: Some(root.path) }
}

/// The file is opened in a session that was there: by the editor of a pane whose socket exists,
/// else in a new window.
pub open spec fn open_in_session(
    root: RootView,
    session: Seq<char>,
    pane: Option<(PaneView, Seq<char>, bool)>,
) -> (JumpStageView, JumpActionView) {
    match pane {
        Some((info, socket, true)) => (
            JumpStageView::OpeningInPane(session, info),
            JumpActionView::OpenInEditor(instance_in(session, root, socket)),
        ),
        _ => (
            JumpStageView::OpeningWindow(session),
            JumpActionView::OpenWindow(session, root.path),
        ),
    }
}

/// An editor of a session is looked for.
pub open spec fn locate_editor(session: SessionView) -> (JumpStageView, JumpActionView) {
    (JumpStageView::Locating(session.name), JumpActionView::LocateEditor(session))
}

/// How the jump goes on.
pub open spec fn next_jump(purpose: Purpose, stage: JumpStageView, event: JumpEventView) -> (
    JumpStageView,
    JumpActionView,
) {
    match (stage, event) {
        (JumpStageView::Matching(lookups), JumpEventView::Session(r)) => match r {
            Ok(Some(session)) => (
                JumpStageView::FindingPane(session.name),
                JumpActionView::FindPane(session.name),
            ),
            _ => next_lookup(lookups),
        },
        (JumpStageView::FindingPane(session), JumpEventView::Pane(r)) => match r {
            Ok(pane) => open_in_session(purpose.root, session, pane),
            Err(cause) => jump_fails(cause),
        },
        (JumpStageView::OpeningInPane(session, pane), JumpEventView::Opened(r)) => match r {
            Ok(_) => find_terminal(session, FrontView::Pane(pane)),
            Err(cause) => jump_fails(cause),
        },
        (JumpStageView::OpeningWindow(session), JumpEventView::Opened(r)) => match r {
            Ok(_) => find_terminal(session, FrontView::Session),
            Err(cause) => jump_fails(cause),
        },
        (JumpStageView::FindingTerminal(session, front), JumpEventView::Terminal(terminal)) => {
            match terminal {
                Some(pid) => (
                    JumpStageView::Focusing(session, pid, front),
                    JumpActionView::FocusTerminal(pid),
                ),
                None => show(session, front),
            }
        },
        (JumpStageView::Focusing(session, pid, front), JumpEventView::Shown) => (
            JumpStageView::Switching(session, front),
            JumpActionView::SwitchClient(pid, session),
        ),
        (JumpStageView::Switching(session, front), JumpEventView::Shown) => show(session, front),
        (JumpStageView::Ensuring, JumpEventView::Session(r)) => match r {
            Ok(Some(session)) => locate_editor(session),
            Ok(None) => (
                JumpStageView::Spawning,
                JumpActionView::Spawn(purpose.root.name, purpose.root.path),
            ),
            Err(cause) => jump_fails(cause),
        },
        (JumpStageView::Spawning, JumpEventView::Spawned(r)) => match r {
            Ok(session) => locate_editor(session),
            Err(cause) => jump_fails(cause),
        },
        (JumpStageView::Locating(session), JumpEventView::Editor(r)) => match r {
            Ok(Some(instance)) => (
                JumpStageView::OpeningDirectly(session),
                JumpActionView::OpenInEditor(instance),
            ),
            Ok(None) => (
                JumpStageView::OpeningDirectly(session),
                JumpActionView::OpenWindow(session, purpose.root.path),
            ),
            Err(cause) => jump_fails(cause),
        },
        (JumpStageView::OpeningDirectly(session), JumpEventView::Opened(r)) => match r {
            Ok(_) => show(session, FrontView::Session),
            Err(cause) => jump_fails(cause),
        },
        (JumpStageView::Showing(session), JumpEventView::Shown) => (
            JumpStageView::Done,
            JumpActionView::Finished(success(session, purpose.file, purpose.line)),
        ),
        _ => (stage, JumpActionView::FindTerminal),
    }
}

/// Begins a jump. Its link is resolved first, with no root asked for; [`Jump::begin`] goes on with
/// what the link leads to.
pub fn jump(input: JumpInput) -> (r: (LinkResolution, ResolveAction))
    ensures
        resolution_begins(input.link@, None, marker_views(input.markers), r.0.stage, r.1),
        is_consistent(r.0.stage),
{
    let request: ResolveLinkRequest = ResolveLinkRequest {
        input: input.link,
        root: None,
        markers: input.markers,
    };
    resolve_link(&request)
}

fn take_lookup(lookups: Vec<SessionLookup>) -> (r: (JumpStage, JumpAction))
    ensures
        (r.0@, r.1@) == next_lookup(lookup_views(lookups@)),
{
    let mut lookups: Vec<SessionLookup> = lookups;
    if lookups.len() == 0 {
        return (JumpStage::Ensuring, JumpAction::FindRepoSession);
    }
    let ghost all = lookups@;
    let next: SessionLookup = lookups.remove(0);
    assert(lookup_views(lookups@) =~= lookup_views(all).drop_first());
    (JumpStage::Matching(lookups), JumpAction::Lookup(next))
}

fn bring_to_front(session: String, front: Front) -> (r: (JumpStage, JumpAction))
    ensures
        (r.0@, r.1@) == show(session@, front@),
{
    let action: JumpAction = match front {
        Front::Pane(pane) => JumpAction::SelectPane(pane),
        Front::Session => JumpAction::Activate(session.clone()),
    };
    (JumpStage::Showing(session), action)
}

fn with_session(session: SessionInfo) -> (r: (JumpStage, JumpAction))
    ensures
        (r.0@, r.1@) == locate_editor(session@),
{
    (JumpStage::Locating(session.name.clone()), JumpAction::LocateEditor(session))
}

/// How the editor behind a socket is reached.
pub fn nvim_instance(session_name: &str, root: &ProjectRoot, socket_path: String) -> (r:
    NvimInstance)
    ensures
        r@ == instance_in(session_name@, root@, socket_path@),
{
    NvimInstance {
        address: socket_path,
        session_name: Some(session_name.to_string()),
        cwd: Some(root.path.clone()),
    }
}

fn failed(cause: String) -> (r: (JumpStage, JumpAction))
    ensures
        (r.0@, r.1@) == jump_fails(cause@),
{
    (JumpStage::Done, JumpAction::Failed(cause))
}

impl Jump {
    /// Begins to open the file that a link leads to.
    pub fn begin(resolved: ResolveLinkOutput) -> (r: (Jump, JumpAction))
        ensures
            r.0.root == resolved.root,
            r.0.target == resolved.materialized,
            (r.0.stage@, r.1@) == next_lookup(
                lookup_list(
                    resolved.request.kind,
                    opt_view(resolved.request.repo_name),
                    resolved.root@,
                ),
            ),
    {
        let lookups: Vec<SessionLookup> = find_matching_tmux_session(
            &resolved.request,
            &resolved.root,
        );
        let (stage, action): (JumpStage, JumpAction) = take_lookup(lookups);
        (Jump { root: resolved.root, target: resolved.materialized, stage }, action)
    }

    fn open_in_session_with_fallback(&self, session: String, found: Option<FoundPane>) -> (r: (
        JumpStage,
        JumpAction,
    ))
        ensures
            (r.0@, r.1@) == open_in_session(
                self.root@,
                session@,
                match found {
                    Some(f) => Some((f.pane@, f.socket@, f.socket_exists)),
                    None => None,
                },
            ),
    {
        if let Some(pane) = found {
            if pane.socket_exists {
                let instance: NvimInstance = nvim_instance(
                    session.as_str(),
                    &self.root,
                    pane.socket,
                );
                return (
                    JumpStage::OpeningInPane { session, pane: pane.pane },
                    JumpAction::OpenInEditor(instance),
                );
            }
        }
        let directory: String = self.root.path.clone();
        (
            JumpStage::OpeningWindow(session.clone()),
            JumpAction::OpenWindow { session, directory },
        )
    }

    fn ensure_session(&self, found: Result<Option<SessionInfo>, String>) -> (r: (
        JumpStage,
        JumpAction,
    ))
        ensures
            (r.0@, r.1@) == next_jump(
                self.purpose(),
                JumpStageView::Ensuring,
                JumpEvent::Session(found)@,
            ),
    {
        match found {
            Ok(Some(session)) => with_session(session),
            Ok(None) => (
                JumpStage::Spawning,
                JumpAction::Spawn {
                    name: self.root.name.clone(),
                    directory: self.root.path.clone(),
                },
            ),
            Err(cause) => failed(cause),
        }
    }

    /// Goes on with what an action has given, and says what to do next.
    pub fn step(&mut self, event: JumpEvent) -> (action: JumpAction)
        requires
            jump_awaits(old(self).stage@, event@),
        ensures
            final(self).root == old(self).root,
            final(self).target == old(self).target,
            (final(self).stage@, action@) == next_jump(
                old(self).purpose(),
                old(self).stage@,
                event@,
            ),
    {
        let mut current: JumpStage = JumpStage::Done;
        std::mem::swap(&mut current, &mut self.stage);
        let (stage, action): (JumpStage, JumpAction) = match (current, event) {
            (JumpStage::Matching(lookups), JumpEvent::Session(r)) => match r {
                Ok(Some(session)) => (
                    JumpStage::FindingPane(session.name.clone()),
                    JumpAction::FindPane(session.name),
                ),
                _ => take_lookup(lookups),
            },
            (JumpStage::FindingPane(session), JumpEvent::Pane(r)) => match r {
                Ok(found) => self.open_in_session_with_fallback(session, found),
                Err(cause) => failed(cause),
            },
            (JumpStage::OpeningInPane { session, pane }, JumpEvent::Opened(r)) => match r {
                Ok(_) => (
                    JumpStage::FindingTerminal { session, front: Front::Pane(pane) },
                    JumpAction::FindTerminal,
                ),
                Err(cause) => failed(cause),
            },
            (JumpStage::OpeningWindow(session), JumpEvent::Opened(r)) => match r {
                Ok(_) => (
                    JumpStage::FindingTerminal { session, front: Front::Session },
                    JumpAction::FindTerminal,
                ),
                Err(cause) => failed(cause),
            },
            (JumpStage::FindingTerminal { session, front }, JumpEvent::Terminal(terminal)) => {
                match terminal {
                    Some(pid) => (
                        JumpStage::Focusing { session, pid, front },
                        JumpAction::FocusTerminal(pid),
                    ),
                    None => bring_to_front(session, front),
                }
            },
            (JumpStage::Focusing { session, pid, front }, JumpEvent::Shown) => (
                JumpStage::Switching { session: session.clone(), front },
                JumpAction::SwitchClient { pid, session },
            ),
            (JumpStage::Switching { session, front }, JumpEvent::Shown) => {
                bring_to_front(session, front)
            },
            (JumpStage::Ensuring, JumpEvent::Session(r)) => self.ensure_session(r),
            (JumpStage::Spawning, JumpEvent::Spawned(r)) => match r {
                Ok(session) => with_session(session),
                Err(cause) => failed(cause),
            },
            (JumpStage::Locating(session), JumpEvent::Editor(r)) => match r {
                Ok(Some(instance)) => (
                    JumpStage::OpeningDirectly(session),
                    JumpAction::OpenInEditor(instance),
                ),
                Ok(None) => (
                    JumpStage::OpeningDirectly(session.clone()),
                    JumpAction::OpenWindow { session, directory: self.root.path.clone() },
                ),
                Err(cause) => failed(cause),
            },
            (JumpStage::OpeningDirectly(session), JumpEvent::Opened(r)) => match r {
                Ok(_) => bring_to_front(session, Front::Session),
                Err(cause) => failed(cause),
            },
            (JumpStage::Showing(session), JumpEvent::Shown) => (
                JumpStage::Done,
                JumpAction::Finished(build_outcome(session, &self.target)),
            ),
            (stage, _) => (stage, JumpAction::FindTerminal),
        };
        self.stage = stage;
        action
    }
}

/// The session in which the file is opened, once it is known.
pub open spec fn session_of(stage: JumpStageView) -> Option<Seq<char>> {
    match stage {
        JumpStageView::FindingPane(session) => Some(session),
        JumpStageView::OpeningInPane(session, _) => Some(session),
        JumpStageView::OpeningWindow(session) => Some(session),
        JumpStageView::FindingTerminal(session, _) => Some(session),
        JumpStageView::Focusing(session, _, _) => Some(session),
        JumpStageView::Switching(session, _) => Some(session),
        JumpStageView::Locating(session) => Some(session),
        JumpStageView::OpeningDirectly(session) => Some(session),
        JumpStageView::Showing(session) => Some(session),
        _ => None,
    }
}

/// The event is of the kind that performing the action gives.
pub open spec fn jump_answers(action: JumpActionView, event: JumpEventView) -> bool {
    match action {
        JumpActionView::Lookup(_) => event is Session,
        JumpActionView::FindPane(_) => event is Pane,
        JumpActionView::OpenInEditor(_) => event is Opened,
        JumpActionView::FindTerminal => event is Terminal,
        JumpActionView::FocusTerminal(_) => event is Shown,
        JumpActionView::SwitchClient(_, _) => event is Shown,
        JumpActionView::SelectPane(_) => event is Shown,
        JumpActionView::OpenWindow(_, _) => event is Opened,
        JumpActionView::FindRepoSession => event is Session,
        JumpActionView::Spawn(_, _) => event is Spawned,
        JumpActionView::LocateEditor(_) => event is Editor,
        JumpActionView::Activate(_) => event is Shown,
        JumpActionView::Finished(_) => false,
        JumpActionView::Failed(_) => false,
    }
}

/// What the first action of a jump gives is what the jump waits for, and nothing else is.
pub proof fn lemma_first_jump_action_fits(lookups: Seq<LookupView>, event: JumpEventView)
    ensures
        ({
            let (stage, action) = next_lookup(lookups);
            jump_awaits(stage, event) <==> jump_answers(action, event)
        }),
{
}

/// The action that a jump says is the one that its new stage waits for: what performing it gives
/// is what the jump goes on with, and nothing else is.
pub proof fn lemma_jump_actions_fit(
    purpose: Purpose,
    stage: JumpStageView,
    event: JumpEventView,
    next: JumpEventView,
)
    requires
        jump_awaits(stage, event),
    ensures
        ({
            let (after, action) = next_jump(purpose, stage, event);
            jump_awaits(after, next) <==> jump_answers(action, next)
        }),
{
}

/// How many actions may still follow.
pub open spec fn actions_left(stage: JumpStageView) -> nat {
    match stage {
        JumpStageView::Matching(lookups) => lookups.len() + 7,
        JumpStageView::FindingPane(_) => 6,
        JumpStageView::OpeningInPane(_, _) => 5,
        JumpStageView::OpeningWindow(_) => 5,
        JumpStageView::FindingTerminal(_, _) => 4,
        JumpStageView::Focusing(_, _, _) => 3,
        JumpStageView::Switching(_, _) => 2,
        JumpStageView::Ensuring => 5,
        JumpStageView::Spawning => 4,
        JumpStageView::Locating(_) => 3,
        JumpStageView::OpeningDirectly(_) => 2,
        JumpStageView::Showing(_) => 1,
        JumpStageView::Done => 0,
    }
}

/// Each event is what the jump waits for when it comes.
pub open spec fn is_jump_run(
    purpose: Purpose,
    stage: JumpStageView,
    events: Seq<JumpEventView>,
) -> bool
    decreases events.len(),
{
    events.len() == 0 || stage is Done || {
        &&& jump_awaits(stage, events[0])
        &&& is_jump_run(purpose, next_jump(purpose, stage, events[0]).0, events.drop_first())
    }
}

/// How far the jump comes with the events, and what it then says.
pub open spec fn run_jump(
    purpose: Purpose,
    stage: JumpStageView,
    action: JumpActionView,
    events: Seq<JumpEventView>,
) -> (JumpStageView, JumpActionView)
    decreases events.len(),
{
    if events.len() == 0 || stage is Done {
        (stage, action)
    } else {
        let (after, next) = next_jump(purpose, stage, events[0]);
        run_jump(purpose, after, next, events.drop_first())
    }
}

/// A jump ends: the file is open, or the jump has failed.
pub proof fn lemma_jump_ends(
    purpose: Purpose,
    stage: JumpStageView,
    action: JumpActionView,
    events: Seq<JumpEventView>,
)
    requires
        stage is Done ==> action is Finished || action is Failed,
        is_jump_run(purpose, stage, events),
        events.len() >= actions_left(stage),
    ensures
        ({
            let (last, outcome) = run_jump(purpose, stage, action, events);
            &&& last is Done
            &&& outcome is Finished || outcome is Failed
        }),
    decreases events.len(),
{
    if events.len() > 0 && stage !is Done {
        let (after, next) = next_jump(purpose, stage, events[0]);
        lemma_jump_ends(purpose, after, next, events.drop_first());
    }
}

/// A jump that has opened a file has opened its own, at its own line; once the session is known,
/// it has opened it there.
pub proof fn lemma_outcome_names_the_target(
    purpose: Purpose,
    stage: JumpStageView,
    action: JumpActionView,
    events: Seq<JumpEventView>,
)
    requires
        action !is Finished,
        is_jump_run(purpose, stage, events),
    ensures
        run_jump(purpose, stage, action, events).1 matches JumpActionView::Finished(outcome) ==> {
            &&& outcome == success(outcome.session, purpose.file, purpose.line)
            &&& session_of(stage) matches Some(session) ==> outcome.session == session
        },
    decreases events.len(),
{
    if events.len() > 0 && stage !is Done {
        let (after, next) = next_jump(purpose, stage, events[0]);
        if after is Done {
            assert(run_jump(purpose, after, next, events.drop_first()) == (after, next));
        } else {
            lemma_outcome_names_the_target(purpose, after, next, events.drop_first());
        }
    }
}

/// No session is made once one is known.
pub proof fn lemma_known_session_is_kept(
    purpose: Purpose,
    stage: JumpStageView,
    action: JumpActionView,
    events: Seq<JumpEventView>,
)
    requires
        session_of(stage) is Some,
        action !is Spawn,
        is_jump_run(purpose, stage, events),
    ensures
        ({
            let (last, said) = run_jump(purpose, stage, action, events);
            &&& last is Done || session_of(last) == session_of(stage)
            &&& said !is Spawn
        }),
    decreases events.len(),
{
    if events.len() > 0 {
        let (after, next) = next_jump(purpose, stage, events[0]);
        if after is Done {
            assert(run_jump(purpose, after, next, events.drop_first()) == (after, next));
        } else {
            lemma_known_session_is_kept(purpose, after, next, events.drop_first());
        }
    }
}

/// A lookup that fails is one that finds nothing.
pub proof fn lemma_failed_lookups_find_nothing(
    purpose: Purpose,
    lookups: Seq<LookupView>,
    cause: Seq<char>,
)
    ensures
        next_jump(purpose, JumpStageView::Matching(lookups), JumpEventView::Session(Err(cause)))
            == next_jump(
            purpose,
            JumpStageView::Matching(lookups),
            JumpEventView::Session(Ok(None)),
        ),
{
}

/// The event is a lookup that has found no session.
pub open spec fn finds_nothing(event: JumpEventView) -> bool {
    event matches JumpEventView::Session(r) && !(r matches Ok(Some(_)))
}

/// The first lookup that finds a session decides: the file is opened there. Without one the
/// session of the project is looked for once more, before one is made.
pub proof fn lemma_first_session_is_taken(
    purpose: Purpose,
    lookups: Seq<LookupView>,
    events: Seq<JumpEventView>,
)
    requires
        events.len() <= lookups.len(),
        forall|i: int| 0 <= i < events.len() - 1 ==> finds_nothing(#[trigger] events[i]),
        events.len() > 0 ==> events.last() is Session,
    ensures
        ({
            let (stage, action) = next_lookup(lookups);
            let (after, said) = run_jump(purpose, stage, action, events);
            events.len() > 0 ==> match events.last() {
                JumpEventView::Session(Ok(Some(session))) => {
                    &&& after == JumpStageView::FindingPane(session.name)
                    &&& said == JumpActionView::FindPane(session.name)
                },
                _ => (after, said) == next_lookup(lookups.skip(events.len() as int)),
            }
        }),
    decreases events.len(),
{
    if events.len() > 0 {
        let (stage, action) = next_lookup(lookups);
        let rest = events.drop_first();
        let (after, next) = next_jump(purpose, stage, events[0]);
        reveal_with_fuel(run_jump, 2);
        if events.len() == 1 {
            assert(lookups.skip(1) =~= lookups.drop_first());
        } else {
            assert(finds_nothing(events[0]));
            assert((after, next) == next_lookup(lookups.drop_first()));
            assert forall|i: int| 0 <= i < rest.len() - 1 implies finds_nothing(
                #[trigger] rest[i],
            ) by {
                assert(finds_nothing(events[i + 1]));
            }
            assert(rest.last() == events.last());
            lemma_first_session_is_taken(purpose, lookups.drop_first(), rest);
            assert(lookups.drop_first().skip(rest.len() as int) =~= lookups.skip(
                events.len() as int,
            ));
        }
    }
}

/// A repository is looked for by its name before anything else, and the name of the project is
/// tried last.
pub proof fn lemma_lookup_order(
    kind: JumpLinkKind,
    repo_name: Option<Seq<char>>,
    root: RootView,
)
    ensures
        ({
            let lookups = lookup_list(kind, repo_name, root);
            &&& lookups.len() >= 2
            &&& lookups[0] == match repo_name {
                Some(name) => if kind == JumpLinkKind::Github {
                    LookupView::ByName(name)
                } else {
                    LookupView::ByPath
                },
                None => LookupView::ByPath,
            }
            &&& lookups.last() == LookupView::ByName(root.name)
        }),
{
}

/// How many lookups go before the one by the path of the project: one by the name of the repository,
/// for a link to GitHub that has one.
pub open spec fn lookups_by_repo(kind: JumpLinkKind, repo_name: Option<Seq<char>>) -> int {
    if kind == JumpLinkKind::Github && repo_name is Some {
        1
    } else {
        0
    }
}

/// Behind the lookup by the name of the repository the kind of the link does not matter: the project
/// is looked for by its path, then above it, and at last by its name.
pub proof fn lemma_lookups_do_not_depend_on_the_kind(
    kind: JumpLinkKind,
    repo_name: Option<Seq<char>>,
    other_kind: JumpLinkKind,
    other_name: Option<Seq<char>>,
    root: RootView,
)
    ensures
        ({
            let list = lookup_list(kind, repo_name, root);
            let other = lookup_list(other_kind, other_name, root);
            let first = lookups_by_repo(kind, repo_name);
            &&& list.len() >= first + 2
            &&& first == 1 ==> list[0] == LookupView::ByName(repo_name->0)
            &&& list[first] == LookupView::ByPath
            &&& list.last() == LookupView::ByName(root.name)
            &&& list.skip(first) == other.skip(lookups_by_repo(other_kind, other_name))
        }),
{
    let rest = seq![LookupView::ByPath] + lookups_above(root.path) + seq![
        LookupView::ByName(root.name),
    ];
    let first = lookups_by_repo(kind, repo_name);
    let other_first = lookups_by_repo(other_kind, other_name);
    assert(lookup_list(kind, repo_name, root).skip(first) =~= rest);
    assert(lookup_list(other_kind, other_name, root).skip(other_first) =~= rest);
}

/// The lookups between the one by the path of a project and the one by its name.
pub open spec fn lookups_between(
    kind: JumpLinkKind,
    repo_name: Option<Seq<char>>,
    root: RootView,
) -> Seq<LookupView> {
    let list = lookup_list(kind, repo_name, root);
    list.subrange(lookups_by_repo(kind, repo_name) + 1, list.len() - 1)
}

/// For every kind of link the directory above a project is looked for by its name, and behind it all
/// that are looked for from there. Above the root directory there is nothing to look for.
pub proof fn lemma_directories_above_are_looked_for(
    kind: JumpLinkKind,
    repo_name: Option<Seq<char>>,
    root: RootView,
    outer: RootView,
)
    requires
        parent_of(root.path) matches Some(above) ==> outer.path == above,
    ensures
        match parent_of(root.path) {
            Some(above) => match file_name_of(above) {
                Some(name) => {
                    let between = lookups_between(kind, repo_name, root);
                    &&& between.len() > 0
                    &&& between[0] == LookupView::ByName(name)
                    &&& between.skip(1) == lookups_between(kind, repo_name, outer)
                },
                None => lookups_between(kind, repo_name, root) == lookups_between(
                    kind,
                    repo_name,
                    outer,
                ),
            },
            None => lookups_between(kind, repo_name, root).len() == 0,
        },
{
    assert(lookups_between(kind, repo_name, root) =~= lookups_above(root.path));
    assert(lookups_between(kind, repo_name, outer) =~= lookups_above(outer.path));
    if let Some(above) = parent_of(root.path) {
        if let Some(name) = file_name_of(above) {
            assert(lookups_above(root.path).skip(1) =~= lookups_above(above));
        } else {
            assert(lookups_above(root.path) =~= lookups_above(above));
        }
    }
}

proof fn lemma_names_above(names: Seq<Seq<char>>)
    requires
        names.len() > 0,
        forall|i: int| 0 <= i < names.len() ==> is_entry(#[trigger] names[i]),
    ensures
        lookups_above(spelled(names)).len() == names.len() - 1,
        forall|i: int|
            0 <= i < names.len() - 1 ==> #[trigger] lookups_above(spelled(names))[i]
                == LookupView::ByName(names[names.len() - 2 - i]),
    decreases names.len(),
{
    let above = names.drop_last();
    lemma_spelled_paths(names);
    if names.len() == 1 {
        assert(lookups_above(seq!['/']).len() == 0);
    } else {
        assert forall|i: int| 0 <= i < above.len() implies is_entry(#[trigger] above[i]) by {
            assert(above[i] == names[i]);
        }
        lemma_spelled_paths(above);
        lemma_names_above(above);
        let rest = lookups_above(spelled(above));
        let all = lookups_above(spelled(names));
        assert(all == seq![LookupView::ByName(above.last())] + rest);
        assert forall|i: int| 0 <= i < names.len() - 1 implies #[trigger] all[i]
            == LookupView::ByName(names[names.len() - 2 - i]) by {
            if i > 0 {
                assert(all[i] == rest[i - 1]);
            }
        }
    }
}

/// A project at a full path is looked for by its path, then by the name of every directory above it,
/// the nearest one first, and then by its own name, for every kind of link.
pub proof fn lemma_every_directory_above_is_tried(
    kind: JumpLinkKind,
    repo_name: Option<Seq<char>>,
    names: Seq<Seq<char>>,
    root: RootView,
)
    requires
        names.len() > 0,
        forall|i: int| 0 <= i < names.len() ==> is_entry(#[trigger] names[i]),
        root.path == spelled(names),
    ensures
        ({
            let list = lookup_list(kind, repo_name, root);
            let first = lookups_by_repo(kind, repo_name);
            &&& list.len() == first + 1 + names.len()
            &&& list[first] == LookupView::ByPath
            &&& forall|i: int|
                0 <= i < names.len() - 1 ==> #[trigger] list[list.len() - 2 - i]
                    == LookupView::ByName(names[i])
            &&& list.last() == LookupView::ByName(root.name)
        }),
{
    lemma_names_above(names);
    let list = lookup_list(kind, repo_name, root);
    let above = lookups_above(root.path);
    assert forall|i: int| 0 <= i < names.len() - 1 implies #[trigger] list[list.len() - 2 - i]
        == LookupView::ByName(names[i]) by {
        assert(list[list.len() - 2 - i] == above[names.len() - 2 - i]);
    }
}

/// What a jump says that has opened its file in a session.
pub open spec fn ends_well(purpose: Purpose, session: Seq<char>) -> (
    JumpStageView,
    JumpActionView,
) {
    (
        JumpStageView::Done,
        JumpActionView::Finished(
            OutcomeView {
                status: "success"@,
                session,
                file: purpose.file,
                line: purpose.line,
            },
        ),
    )
}

/// An editor that runs in a session that was found opens the file where its socket exists: it is
/// reached by that socket, from the project. Then its pane is shown, in the terminal where one is
/// found.
pub proof fn lemma_running_editors_open_files(
    purpose: Purpose,
    session: Seq<char>,
    pane: PaneView,
    socket: Seq<char>,
    pid: u32,
)
    ensures
        ({
            let (opening, open) = next_jump(
                purpose,
                JumpStageView::FindingPane(session),
                JumpEventView::Pane(Ok(Some((pane, socket, true)))),
            );
            let (finding, find) = next_jump(purpose, opening, JumpEventView::Opened(Ok(())));
            let (bare, select) = next_jump(purpose, finding, JumpEventView::Terminal(None));
            let (focusing, focus) = next_jump(purpose, finding, JumpEventView::Terminal(Some(pid)));
            let (switching, switch) = next_jump(purpose, focusing, JumpEventView::Shown);
            let (showing, show) = next_jump(purpose, switching, JumpEventView::Shown);
            &&& open == JumpActionView::OpenInEditor(
                InstanceView {
                    address: socket,
                    session_name: Some(session),
                    cwd: Some(purpose.root.path),
                },
            )
            &&& find == JumpActionView::FindTerminal
            &&& select == JumpActionView::SelectPane(pane)
            &&& next_jump(purpose, bare, JumpEventView::Shown) == ends_well(purpose, session)
            &&& focus == JumpActionView::FocusTerminal(pid)
            &&& switch == JumpActionView::SwitchClient(pid, session)
            &&& show == JumpActionView::SelectPane(pane)
            &&& next_jump(purpose, showing, JumpEventView::Shown) == ends_well(purpose, session)
        }),
{
}

/// Without an editor whose socket exists, a new window of the session opens the file, in the
/// directory of the project. Then the session is shown, in the terminal where one is found.
pub proof fn lemma_new_windows_open_files(
    purpose: Purpose,
    session: Seq<char>,
    pane: Option<(PaneView, Seq<char>, bool)>,
    pid: u32,
)
    requires
        pane matches Some(found) ==> !found.2,
    ensures
        ({
            let (opening, open) = next_jump(
                purpose,
                JumpStageView::FindingPane(session),
                JumpEventView::Pane(Ok(pane)),
            );
            let (finding, find) = next_jump(purpose, opening, JumpEventView::Opened(Ok(())));
            let (bare, activate) = next_jump(purpose, finding, JumpEventView::Terminal(None));
            let (focusing, focus) = next_jump(purpose, finding, JumpEventView::Terminal(Some(pid)));
            let (switching, switch) = next_jump(purpose, focusing, JumpEventView::Shown);
            let (showing, show) = next_jump(purpose, switching, JumpEventView::Shown);
            &&& open == JumpActionView::OpenWindow(session, purpose.root.path)
            &&& find == JumpActionView::FindTerminal
            &&& activate == JumpActionView::Activate(session)
            &&& next_jump(purpose, bare, JumpEventView::Shown) == ends_well(purpose, session)
            &&& focus == JumpActionView::FocusTerminal(pid)
            &&& switch == JumpActionView::SwitchClient(pid, session)
            &&& show == JumpActionView::Activate(session)
            &&& next_jump(purpose, showing, JumpEventView::Shown) == ends_well(purpose, session)
        }),
{
}

/// Where no lookup has found a session, the one of the project is looked for once more, and made
/// where there is none: it is named like the project and stands in its directory. An editor that
/// belongs to it opens the file, else a new window does; then the session is shown.
pub proof fn lemma_sessions_are_made_for_the_project(
    purpose: Purpose,
    late: Option<SessionView>,
    made: SessionView,
    editor: Option<InstanceView>,
)
    ensures
        ({
            let (again, first) = next_lookup(seq![]);
            let (ensured, answer) = next_jump(purpose, again, JumpEventView::Session(Ok(late)));
            let (locating, locate) = match late {
                Some(_) => (ensured, answer),
                None => next_jump(purpose, ensured, JumpEventView::Spawned(Ok(made))),
            };
            let session = match late {
                Some(found) => found,
                None => made,
            };
            let (opening, open) = next_jump(purpose, locating, JumpEventView::Editor(Ok(editor)));
            let (showing, show) = next_jump(purpose, opening, JumpEventView::Opened(Ok(())));
            &&& first == JumpActionView::FindRepoSession
            &&& late is None ==> answer == JumpActionView::Spawn(
                purpose.root.name,
                purpose.root.path,
            )
            &&& locate == JumpActionView::LocateEditor(session)
            &&& open == match editor {
                Some(instance) => JumpActionView::OpenInEditor(instance),
                None => JumpActionView::OpenWindow(session.name, purpose.root.path),
            }
            &&& show == JumpActionView::Activate(session.name)
            &&& next_jump(purpose, showing, JumpEventView::Shown) == ends_well(
                purpose,
                session.name,
            )
        }),
{
}

/// Whatever fails ends the jump with its cause, but for the lookups for a session.
pub proof fn lemma_failures_end_the_jump(
    purpose: Purpose,
    stage: JumpStageView,
    event: JumpEventView,
    cause: Seq<char>,
)
    requires
        jump_awaits(stage, event),
        stage !is Matching,
        event == JumpEventView::Session(Err(cause)) || event == JumpEventView::Pane(Err(cause))
            || event == JumpEventView::Opened(Err(cause)) || event == JumpEventView::Spawned(
            Err(cause),
        ) || event == JumpEventView::Editor(Err(cause)),
    ensures
        next_jump(purpose, stage, event) == (JumpStageView::Done, JumpActionView::Failed(cause)),
{
}

/// What a jump is told are the records and the numbers in the events.
pub proof fn lemma_jumps_are_told_what_events_hold(
    session: SessionInfo,
    found: FoundPane,
    instance: NvimInstance,
    cause: String,
    pid: Option<u32>,
)
    ensures
        JumpEvent::Session(Ok(Some(session)))@ == JumpEventView::Session(Ok(Some(session@))),
        JumpEvent::Session(Ok(None))@ == JumpEventView::Session(Ok(None)),
        JumpEvent::Session(Err(cause))@ == JumpEventView::Session(Err(cause@)),
        JumpEvent::Pane(Ok(Some(found)))@ == JumpEventView::Pane(
            Ok(Some((found.pane@, found.socket@, found.socket_exists))),
        ),
        JumpEvent::Pane(Ok(None))@ == JumpEventView::Pane(Ok(None)),
        JumpEvent::Pane(Err(cause))@ == JumpEventView::Pane(Err(cause@)),
        JumpEvent::Opened(Ok(()))@ == JumpEventView::Opened(Ok(())),
        JumpEvent::Opened(Err(cause))@ == JumpEventView::Opened(Err(cause@)),
        JumpEvent::Terminal(pid)@ == JumpEventView::Terminal(pid),
        JumpEvent::Spawned(Ok(session))@ == JumpEventView::Spawned(Ok(session@)),
        JumpEvent::Spawned(Err(cause))@ == JumpEventView::Spawned(Err(cause@)),
        JumpEvent::Editor(Ok(Some(instance)))@ == JumpEventView::Editor(Ok(Some(instance@))),
        JumpEvent::Editor(Ok(None))@ == JumpEventView::Editor(Ok(None)),
        JumpEvent::Editor(Err(cause))@ == JumpEventView::Editor(Err(cause@)),
{
}

/// What a jump says are the records, the texts and the numbers in its actions.
pub proof fn lemma_jumps_say_what_actions_hold(
    text: String,
    other: String,
    pid: u32,
    instance: NvimInstance,
    pane: NvimPaneInfo,
    session: SessionInfo,
    outcome: JumpOutcome,
)
    ensures
        JumpAction::Lookup(SessionLookup::ByName(text))@ == JumpActionView::Lookup(
            LookupView::ByName(text@),
        ),
        JumpAction::Lookup(SessionLookup::ByPath)@ == JumpActionView::Lookup(LookupView::ByPath),
        JumpAction::FindPane(text)@ == JumpActionView::FindPane(text@),
        JumpAction::OpenInEditor(instance)@ == JumpActionView::OpenInEditor(instance@),
        JumpAction::FocusTerminal(pid)@ == JumpActionView::FocusTerminal(pid),
        (JumpAction::SwitchClient { pid, session: text })@ == JumpActionView::SwitchClient(
            pid,
            text@,
        ),
        JumpAction::SelectPane(pane)@ == JumpActionView::SelectPane(pane@),
        (JumpAction::OpenWindow { session: text, directory: other })@ == JumpActionView::OpenWindow(
            text@,
            other@,
        ),
        (JumpAction::Spawn { name: text, directory: other })@ == JumpActionView::Spawn(
            text@,
            other@,
        ),
        JumpAction::LocateEditor(session)@ == JumpActionView::LocateEditor(session@),
        JumpAction::Activate(text)@ == JumpActionView::Activate(text@),
        JumpAction::Finished(outcome)@ == JumpActionView::Finished(
            OutcomeView {
                status: outcome.status@,
                session: outcome.session@,
                file: outcome.file@,
                line: outcome.line,
            },
        ),
        JumpAction::Failed(text)@ == JumpActionView::Failed(text@),
{
}

/// A jump is for the file that its link leads to, at its line, and for the project of the link.
pub proof fn lemma_jumps_are_for_their_targets(jump: Jump)
    ensures
        jump.purpose().root == jump.root@,
        jump.purpose().file == jump.target.absolute@,
        jump.purpose().line == jump.target.line,
{
}

} // verus!
