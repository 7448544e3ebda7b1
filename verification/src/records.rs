//! What the parts of a jump hand to each other: links, projects, sessions and editors.

use vstd::prelude::*;
use vstd::string::*;

use crate::paths::{
    file_name, file_name_of, is_entry, is_name, lemma_last_name_of_path, lemma_spelled_paths,
};
use crate::text::opt_view;

verus! {

/// What a link names its file by.
#[derive(Debug, Clone, Copy, PartialEq, Eq, Structural)]
pub enum JumpLinkKind {
    /// A path from the root directory.
    Absolute,
    /// A path from the root of a project.
    Relative,
    /// A page on GitHub.
    Github,
}

/// A link, taken apart.
pub struct JumpRequest {
    pub kind: JumpLinkKind,
    pub path: String,
    pub line: Option<u32>,
    pub end_line: Option<u32>,
    pub repo_name: Option<String>,
    pub revision: Option<String>,
}

/// A project with the marker by which its root was found.
pub struct ProjectRoot {
    pub path: String,
    pub name: String,
    pub marker: String,
}

/// What a [`ProjectRoot`] says.
pub struct RootView {
    pub path: Seq<char>,
    pub name: Seq<char>,
    pub marker: Seq<char>,
}

/// The project at a path: it is named like its directory.
pub open spec fn root_at(path: Seq<char>, marker: Seq<char>) -> RootView {
    RootView {
        path,
        name: match file_name_of(path) {
            Some(name) => name,
            None => path,
        },
        marker,
    }
}

impl ProjectRoot {
    /// What the project root says.
    pub open spec fn view(self) -> RootView {
        RootView { path: self.path@, name: self.name@, marker: self.marker@ }
    }

    /// The project at a path: it is named like its directory.
    pub fn new(path: String, marker: String) -> (r: ProjectRoot)
        ensures
            r@ == root_at(path@, marker@),
    {
        let name: String = match file_name(path.as_str()) {
            Some(name) => name.to_string(),
            None => path.clone(),
        };
        ProjectRoot { path, name, marker }
    }

    /// A project root of its own that says the same.
    pub fn copy(&self) -> (r: ProjectRoot)
        ensures
            r@ == self@,
    {
        ProjectRoot {
            path: self.path.clone(),
            name: self.name.clone(),
            marker: self.marker.clone(),
        }
    }
}

/// A file that a link leads to, in the file system.
pub struct MaterializedPath {
    pub absolute: String,
    pub relative: Option<String>,
    pub line: Option<u32>,
    pub end_line: Option<u32>,
    pub kind: JumpLinkKind,
    pub revision: Option<String>,
}

/// What a [`MaterializedPath`] says.
pub struct TargetView {
    pub absolute: Seq<char>,
    pub relative: Option<Seq<char>>,
    pub line: Option<u32>,
    pub end_line: Option<u32>,
    pub kind: JumpLinkKind,
    pub revision: Option<Seq<char>>,
}

impl MaterializedPath {
    /// What the path says.
    pub open spec fn view(self) -> TargetView {
        TargetView {
            absolute: self.absolute@,
            relative: opt_view(self.relative),
            line: self.line,
            end_line: self.end_line,
            kind: self.kind,
            revision: opt_view(self.revision),
        }
    }
}

/// A session of tmux.
pub struct SessionInfo {
    pub name: String,
    pub path: String,
}

/// What a [`SessionInfo`] says.
pub struct SessionView {
    pub name: Seq<char>,
    pub path: Seq<char>,
}

impl SessionInfo {
    /// What the session information says.
    pub open spec fn view(self) -> SessionView {
        SessionView { name: self.name@, path: self.path@ }
    }
}

/// A running editor that can be told to open files.
pub struct NvimInstance {
    pub address: String,
    pub session_name: Option<String>,
    pub cwd: Option<String>,
}

/// What an [`NvimInstance`] says.
pub struct InstanceView {
    pub address: Seq<char>,
    pub session_name: Option<Seq<char>>,
    pub cwd: Option<Seq<char>>,
}

impl NvimInstance {
    /// What the instance says.
    pub open spec fn view(self) -> InstanceView {
        InstanceView {
            address: self.address@,
            session_name: opt_view(self.session_name),
            cwd: opt_view(self.cwd),
        }
    }
}

/// A pane of tmux in which an editor runs.
pub struct NvimPaneInfo {
    pub session: String,
    pub window: String,
    pub pane: String,
    pub nvim_pid: u32,
}

/// What an [`NvimPaneInfo`] says.
pub struct PaneView {
    pub session: Seq<char>,
    pub window: Seq<char>,
    pub pane: Seq<char>,
    pub nvim_pid: u32,
}

impl NvimPaneInfo {
    /// What the pane information says.
    pub open spec fn view(self) -> PaneView {
        PaneView {
            session: self.session@,
            window: self.window@,
            pane: self.pane@,
            nvim_pid: self.nvim_pid,
        }
    }

    /// How tmux names the window of the pane.
    pub fn window_target(&self) -> (r: String)
        ensures
            r@ == self.session@ + ":"@ + self.window@,
    {
        let mut out: String = self.session.clone();
        out.append(":");
        out.append(self.window.as_str());
        out
    }

    /// How tmux names the pane.
    pub fn pane_target(&self) -> (r: String)
        ensures
            r@ == self.session@ + ":"@ + self.window@ + "."@ + self.pane@,
    {
        let mut out: String = self.window_target();
        out.append(".");
        out.append(self.pane.as_str());
        out
    }
}

/// A workspace of the desktop.
pub struct Workspace {
    pub id: i64,
}

/// A window of the desktop.
pub struct HyprlandWindow {
    pub class: String,
    pub pid: u32,
    pub workspace: Workspace,
}

/// A project is named by the last name of its path.
pub proof fn lemma_projects_are_named_like_their_directories(
    base: Seq<char>,
    name: Seq<char>,
    marker: Seq<char>,
)
    requires
        is_name(name),
        name != seq!['.', '.'],
    ensures
        root_at(base + seq!['/'] + name, marker) == (RootView {
            path: base + seq!['/'] + name,
            name,
            marker,
        }),
        root_at(seq!['/'], marker).name == seq!['/'],
{
    lemma_last_name_of_path(base, name);
    let one = seq![name];
    assert forall|i: int| 0 <= i < one.len() implies is_entry(#[trigger] one[i]) by {}
    lemma_spelled_paths(one);
}

/// What the records say are the texts and the numbers in them.
pub proof fn lemma_records_say_what_they_hold(
    root: ProjectRoot,
    target: MaterializedPath,
    session: SessionInfo,
    instance: NvimInstance,
    pane: NvimPaneInfo,
)
    ensures
        root@.path == root.path@ && root@.name == root.name@ && root@.marker == root.marker@,
        target@.absolute == target.absolute@ && target@.relative == opt_view(target.relative),
        target@.line == target.line && target@.end_line == target.end_line,
        target@.kind == target.kind && target@.revision == opt_view(target.revision),
        session@.name == session.name@ && session@.path == session.path@,
        instance@.address == instance.address@,
        instance@.session_name == opt_view(instance.session_name),
        instance@.cwd == opt_view(instance.cwd),
        pane@.session == pane.session@ && pane@.window == pane.window@,
        pane@.pane == pane.pane@ && pane@.nvim_pid == pane.nvim_pid,
{
}

} // verus!
