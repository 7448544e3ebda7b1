//! Links, projects, sessions and editors.

use jump::app::locate::{
    build_scanner, equal_ignoring_case, find_project_by_name, locate_root, marker_option,
    LocateError, Markers, RootAction, RootEvent, RootSearch,
};
use jump::app::requests::{JumpInput, ResolveLinkOutput, ResolveLinkRequest};
use jump::app::resolve::{
    materialized, resolve_link, LinkResolution, ResolveAction, ResolveError, ResolveEvent,
};
use jump::app::session::{
    build_outcome, find_matching_tmux_session, nvim_instance, FoundPane, Jump, JumpAction,
    JumpEvent, SessionLookup,
};
use jump::git::{find_repository, permalink};
use jump::link::{parse_link, LinkError};
use jump::nvim::{choose_socket, open_arguments};
use jump::paths::{join_path, path_names, relative_path};
use jump::records::{
    JumpLinkKind, JumpRequest, MaterializedPath, NvimInstance, NvimPaneInfo, ProjectRoot,
    SessionInfo,
};
use jump::tmux::{
    editor_command, find_nvim_pane, find_session, list_arguments, pane_arguments, parse_sessions,
    spawn_arguments, window_arguments, PANE_FORMAT,
};

fn text(s: &str) -> String {
    s.to_string()
}

fn link(kind: JumpLinkKind, path: &str, repo_name: Option<&str>) -> JumpRequest {
    JumpRequest {
        kind,
        path: text(path),
        line: None,
        end_line: None,
        repo_name: repo_name.map(text),
        revision: None,
    }
}

fn root(path: &str) -> ProjectRoot {
    ProjectRoot::new(text(path), text(".git"))
}

fn target(path: &str, line: Option<u32>) -> MaterializedPath {
    MaterializedPath {
        absolute: text(path),
        relative: None,
        line,
        end_line: None,
        kind: JumpLinkKind::Absolute,
        revision: None,
    }
}

fn session(name: &str) -> SessionInfo {
    SessionInfo { name: text(name), path: text("/p") }
}

#[test]
fn nvim_instance_fields() {
    let instance = NvimInstance {
        address: "/tmp/nvim.sock".to_string(),
        session_name: Some("dev".to_string()),
        cwd: Some("/home/user/project".to_string()),
    };

    assert_eq!(instance.address, "/tmp/nvim.sock");
    assert_eq!(instance.session_name, Some("dev".to_string()));
    assert_eq!(instance.cwd, Some("/home/user/project".to_string()));
}

#[test]
fn nvim_pane_info_generates_correct_targets() {
    let pane = NvimPaneInfo {
        session: "dev".to_string(),
        window: "2".to_string(),
        pane: "1".to_string(),
        nvim_pid: 12345,
    };

    assert_eq!(pane.pane_target(), "dev:2.1");
    assert_eq!(pane.window_target(), "dev:2");
}

#[test]
fn links_are_taken_apart() {
    let relative = parse_link("src/lib.rs:5").unwrap();
    assert_eq!(relative.kind, JumpLinkKind::Relative);
    assert_eq!(relative.path, "src/lib.rs");
    assert_eq!((relative.line, relative.end_line), (Some(5), None));
    let page =
        parse_link("https://github.com/example/repo/blob/main/src/main.rs#L10").unwrap();
    assert_eq!(page.kind, JumpLinkKind::Github);
    assert_eq!(page.path, "src/main.rs");
    assert_eq!((page.line, page.end_line), (Some(10), None));
    assert_eq!(page.repo_name.as_deref(), Some("repo"));
    assert_eq!(page.revision.as_deref(), Some("main"));
    let range = parse_link(" https://github.com/o/r/blob/abc/a.rs#L3-L7\n").unwrap();
    assert_eq!((range.line, range.end_line), (Some(3), Some(7)));
    let absolute = parse_link("/tmp/x.rs:3-9").unwrap();
    assert_eq!(absolute.kind, JumpLinkKind::Absolute);
    assert_eq!((absolute.line, absolute.end_line), (Some(3), Some(9)));
    let plain = parse_link("a:b").unwrap();
    assert_eq!(plain.path, "a:b");
    assert_eq!(plain.line, None);
    assert_eq!(parse_link("x:4294967296").unwrap().line, None);
}

#[test]
fn texts_that_are_no_links_are_refused() {
    assert!(matches!(parse_link("  "), Err(LinkError::Empty)));
    for page in [
        "https://github.com/",
        "https://github.com/o/r",
        "https://github.com/o/r/tree/main/a",
        "https://github.com/o/r/blob/main/",
        "https://github.com/o//blob/main/a",
    ] {
        assert!(matches!(parse_link(page), Err(LinkError::NoFile)));
    }
    assert_eq!(LinkError::Empty.message(), "The link is empty");
    assert_eq!(LinkError::NoFile.message(), "The link leads to no file");
}

#[test]
fn projects_are_named_like_their_directories() {
    let project = ProjectRoot::new(text("/home/me/proj/"), text("manual"));
    assert_eq!(project.name, "proj");
    assert_eq!(project.marker, "manual");
    assert_eq!(ProjectRoot::new(text("/"), text("m")).name, "/");
}

#[test]
fn names_are_compared_without_case() {
    for (a, b) in [("Jump", "jUMP"), ("a", "b"), ("ä", "Ä"), ("", ""), ("ab", "a"), ("[", "{")] {
        assert_eq!(equal_ignoring_case(a, b), a.eq_ignore_ascii_case(b));
    }
}

#[test]
fn projects_are_found_by_name() {
    let scans = vec![
        None,
        Some(vec![root("/a/one"), root("/a/Two")]),
        Some(vec![root("/b/two")]),
    ];
    assert_eq!(find_project_by_name("two", &scans).unwrap().path, "/a/Two");
    assert_eq!(find_project_by_name("ONE", &scans).unwrap().path, "/a/one");
    assert!(find_project_by_name("three", &scans).is_none());
}

fn found(action: RootAction) -> ProjectRoot {
    match action {
        RootAction::Found(project) => project,
        _ => panic!("a project was found"),
    }
}

fn failed(action: RootAction) -> LocateError {
    match action {
        RootAction::Failed(error) => error,
        _ => panic!("the search has failed"),
    }
}

#[test]
fn a_requested_root_comes_first() {
    let request = link(JumpLinkKind::Github, "a.rs", Some("repo"));
    let (mut search, first) = locate_root(&request, Some("here"), &None);
    assert!(matches!(first, RootAction::Canonicalize(path) if path == "here"));
    let scan = search.step(RootEvent::Canonical(Ok(text("/full/here"))));
    assert!(matches!(scan, RootAction::ScanFrom { start, .. } if start == "/full/here"));
    let project = found(search.step(RootEvent::Scanned(Ok(None))));
    assert_eq!(project.path, "/full/here");
    assert_eq!(project.name, "here");
    assert_eq!(project.marker, "manual");
    let (mut search, _) = locate_root(&request, Some("here"), &None);
    search.step(RootEvent::Canonical(Ok(text("/full/here"))));
    let project = found(search.step(RootEvent::Scanned(Ok(Some(root("/full"))))));
    assert_eq!(project.path, "/full");
    let (mut search, _) = locate_root(&request, Some("here"), &None);
    assert!(matches!(
        failed(search.step(RootEvent::Canonical(Err(text("gone"))))),
        LocateError::Canonicalize { root, cause } if root == "here" && cause == "gone"
    ));
}

#[test]
fn repositories_are_looked_for_by_name() {
    let request = link(JumpLinkKind::Github, "a.rs", Some("repo"));
    let (mut search, first) = locate_root(&request, None, &None);
    assert!(matches!(first, RootAction::SearchByName { name, .. } if name == "repo"));
    assert_eq!(
        found(search.step(RootEvent::Searched(Some(root("/x/repo"))))).path,
        "/x/repo"
    );
    let (mut search, _) = locate_root(&request, None, &None);
    assert!(matches!(
        search.step(RootEvent::Searched(None)),
        RootAction::CurrentDir
    ));
    let scan = search.step(RootEvent::CurrentDir(Ok(text("/cwd"))));
    assert!(matches!(scan, RootAction::ScanFrom { start, .. } if start == "/cwd"));
    assert!(matches!(
        failed(search.step(RootEvent::Scanned(Ok(None)))),
        LocateError::NotFound { start, markers: Markers::Defaults } if start == "/cwd"
    ));
}

#[test]
fn relative_links_stand_below_the_current_directory() {
    let request = link(JumpLinkKind::Relative, "a.rs", Some("ignored"));
    let (mut search, first) = locate_root(&request, None, &None);
    assert!(matches!(first, RootAction::CurrentDir));
    assert!(matches!(
        failed(search.step(RootEvent::CurrentDir(Err(text("gone"))))),
        LocateError::CurrentDir { cause } if cause == "gone"
    ));
    let (mut search, _) = locate_root(&request, None, &None);
    search.step(RootEvent::CurrentDir(Ok(text("/cwd"))));
    assert!(matches!(
        failed(search.step(RootEvent::Scanned(Err(text("denied"))))),
        LocateError::Scan { cause } if cause == "denied"
    ));
}

#[test]
fn absolute_paths_always_have_a_project() {
    let request = link(JumpLinkKind::Absolute, "/tmp/dir/a.rs", None);
    let start = || -> RootSearch {
        let (search, first) = locate_root(&request, None, &None);
        assert!(matches!(first, RootAction::ScanFrom { start, .. } if start == "/tmp/dir"));
        search
    };
    assert_eq!(
        found(start().step(RootEvent::Scanned(Ok(Some(root("/tmp")))))).path,
        "/tmp"
    );
    let project = found(start().step(RootEvent::Scanned(Ok(None))));
    assert_eq!((project.path.as_str(), project.marker.as_str()), ("/tmp/dir", "manual"));
    let project = found(start().step(RootEvent::Scanned(Err(text("denied")))));
    assert_eq!(project.path, "/tmp/dir");
    let (mut search, _) = locate_root(&request, Some("gone"), &None);
    let project = found(search.step(RootEvent::Canonical(Err(text("gone")))));
    assert_eq!(project.path, "/tmp/dir");
    let (_, first) = locate_root(&link(JumpLinkKind::Absolute, "/", None), None, &None);
    assert!(matches!(first, RootAction::ScanFrom { start, .. } if start == "/"));
}

fn resolving(input: &str, root: Option<&str>) -> (LinkResolution, ResolveAction) {
    resolve_link(&ResolveLinkRequest {
        input: text(input),
        root: root.map(text),
        markers: None,
    })
}

#[test]
fn resolves_relative_link_with_detected_root() {
    let (mut resolution, first) = resolving("src/lib.rs:5", None);
    assert!(matches!(first, ResolveAction::Lookup(RootAction::CurrentDir)));
    let action = resolution.step(ResolveEvent::LookedUp(RootEvent::CurrentDir(Ok(text("/p/src")))));
    assert!(matches!(
        action,
        ResolveAction::Lookup(RootAction::ScanFrom { start, .. }) if start == "/p/src"
    ));
    let action = resolution.step(ResolveEvent::LookedUp(RootEvent::Scanned(Ok(Some(root("/p"))))));
    assert!(matches!(action, ResolveAction::Materialize(path) if path == "/p/src/lib.rs"));
    match resolution.step(ResolveEvent::Materialized(Ok(text("/p/src/lib.rs")))) {
        ResolveAction::Finished(output) => {
            assert_eq!(output.root.path, "/p");
            assert_eq!(output.request.kind, JumpLinkKind::Relative);
            assert_eq!(output.materialized.line, Some(5));
            assert_eq!(output.materialized.absolute, "/p/src/lib.rs");
        }
        _ => panic!("the link leads to a file"),
    }
}

#[test]
fn resolves_github_link_with_explicit_root() {
    let (mut resolution, first) = resolving(
        "https://github.com/example/repo/blob/main/src/main.rs#L10",
        Some("/tmp/project"),
    );
    assert!(matches!(
        first,
        ResolveAction::Lookup(RootAction::Canonicalize(path)) if path == "/tmp/project"
    ));
    let canonical = RootEvent::Canonical(Ok(text("/tmp/project")));
    let action = resolution.step(ResolveEvent::LookedUp(canonical));
    assert!(matches!(
        action,
        ResolveAction::Lookup(RootAction::ScanFrom { start, .. }) if start == "/tmp/project"
    ));
    let scanned = RootEvent::Scanned(Ok(Some(root("/tmp/project"))));
    let action = resolution.step(ResolveEvent::LookedUp(scanned));
    assert!(matches!(
        action,
        ResolveAction::Materialize(path) if path == "/tmp/project/src/main.rs"
    ));
    match resolution.step(ResolveEvent::Materialized(Ok(text("/tmp/project/src/main.rs")))) {
        ResolveAction::Finished(output) => {
            assert_eq!(output.request.kind, JumpLinkKind::Github);
            assert_eq!(output.materialized.absolute, "/tmp/project/src/main.rs");
            assert_eq!(output.materialized.relative.as_deref(), Some("src/main.rs"));
            assert_eq!(output.materialized.line, Some(10));
            assert_eq!(output.materialized.end_line, None);
            assert_eq!(output.materialized.kind, JumpLinkKind::Github);
            assert_eq!(output.materialized.revision.as_deref(), Some("main"));
        }
        _ => panic!("the link leads to a file"),
    }
}

#[test]
fn targets_keep_what_their_links_say() {
    let request = JumpRequest {
        kind: JumpLinkKind::Github,
        path: text("src/a.rs"),
        line: Some(3),
        end_line: Some(9),
        repo_name: Some(text("repo")),
        revision: Some(text("abc")),
    };
    let file = materialized(&root("/w/repo"), &request, text("/w/repo/src/a.rs"));
    assert_eq!(file.absolute, "/w/repo/src/a.rs");
    assert_eq!(file.relative.as_deref(), Some("src/a.rs"));
    assert_eq!((file.line, file.end_line), (Some(3), Some(9)));
    assert_eq!(file.kind, JumpLinkKind::Github);
    assert_eq!(file.revision.as_deref(), Some("abc"));
    let file = materialized(&root("/w/repo"), &request, text("/elsewhere/a.rs"));
    assert_eq!(file.absolute, "/elsewhere/a.rs");
    assert_eq!(file.relative, None);
}

#[test]
fn full_paths_are_seen_from_directories() {
    let bases = ["/", "/a", "/a/b", "/ab", "/a/", "//a", "/a/./b", "/a//b/.", "/./", "a", ""];
    for base in bases {
        for path in ["/", "/a", "/ab", "/abc", "/a/b", "/a/b/c.rs", "/ab/c", "/x/a/b"] {
            let expected = std::path::Path::new(path)
                .strip_prefix(base)
                .ok()
                .map(|rest| rest.to_string_lossy().to_string());
            assert_eq!(relative_path(base, path), expected, "{} from {}", path, base);
            if let Some(rest) = expected {
                assert_eq!(path_names(&join_path(base, &rest)), path_names(path));
            }
        }
    }
    assert_eq!(path_names("/a//b/./c.rs/"), vec!["a", "b", "c.rs"]);
    assert_eq!(relative_path("/a", "/a"), Some(text("")));
    assert_eq!(relative_path("/a//b", "/a/b/c.rs"), Some(text("c.rs")));
    assert_eq!(relative_path("/a", "/ab"), None);
}

#[test]
fn searches_go_by_the_markers_asked_for() {
    let markers = Some(vec![text("go.mod"), text(".hg")]);
    let custom = |markers: &Markers| -> bool {
        matches!(markers, Markers::Custom(list) if list == &vec![text("go.mod"), text(".hg")])
    };
    let request = link(JumpLinkKind::Github, "a.rs", Some("repo"));
    let (mut search, first) = locate_root(&request, None, &markers);
    assert!(matches!(first, RootAction::SearchByName { markers, .. } if custom(&markers)));
    search.step(RootEvent::Searched(None));
    let scan = search.step(RootEvent::CurrentDir(Ok(text("/cwd"))));
    assert!(matches!(scan, RootAction::ScanFrom { markers, .. } if custom(&markers)));
    assert!(matches!(
        failed(search.step(RootEvent::Scanned(Ok(None)))),
        LocateError::NotFound { markers, .. } if custom(&markers)
    ));
    let (mut resolution, _) = resolve_link(&ResolveLinkRequest {
        input: text("a.rs"),
        root: Some(text("here")),
        markers: Some(vec![text("go.mod"), text(".hg")]),
    });
    let canonical = RootEvent::Canonical(Ok(text("/here")));
    assert!(matches!(
        resolution.step(ResolveEvent::LookedUp(canonical)),
        ResolveAction::Lookup(RootAction::ScanFrom { markers, .. }) if custom(&markers)
    ));
    let (_, first) = jump::jump(JumpInput {
        link: text("/a/b.rs"),
        markers: Some(vec![text("go.mod"), text(".hg")]),
    });
    assert!(matches!(
        first,
        ResolveAction::Lookup(RootAction::ScanFrom { markers, .. }) if custom(&markers)
    ));
}

#[test]
fn links_that_lead_nowhere_are_reported() {
    assert!(matches!(
        resolving(" ", None).1,
        ResolveAction::Failed(ResolveError::Parse(LinkError::Empty))
    ));
    let (mut resolution, _) = resolving("a.rs", None);
    assert!(matches!(
        resolution.step(ResolveEvent::LookedUp(RootEvent::CurrentDir(Err(text("gone"))))),
        ResolveAction::Failed(ResolveError::Locate(LocateError::CurrentDir { .. }))
    ));
    let (mut resolution, first) = resolving("https://github.com/o/r/blob/m/a.rs", Some("here"));
    assert!(matches!(
        first,
        ResolveAction::Lookup(RootAction::Canonicalize(path)) if path == "here"
    ));
    resolution.step(ResolveEvent::LookedUp(RootEvent::Canonical(Ok(text("/here")))));
    resolution.step(ResolveEvent::LookedUp(RootEvent::Scanned(Ok(None))));
    assert!(matches!(
        resolution.step(ResolveEvent::Materialized(Err(text("no file")))),
        ResolveAction::Failed(ResolveError::Materialize { cause }) if cause == "no file"
    ));
}

#[test]
fn markers_are_the_default_ones_or_those_asked_for() {
    assert!(matches!(build_scanner(&None), Markers::Defaults));
    match build_scanner(&Some(vec![text("go.mod"), text(".hg")])) {
        Markers::Custom(list) => assert_eq!(list, vec!["go.mod", ".hg"]),
        Markers::Defaults => panic!("markers were asked for"),
    }
    assert!(marker_option(Vec::new()).is_none());
    assert_eq!(marker_option(vec![text("x")]), Some(vec![text("x")]));
}

fn names(lookups: Vec<SessionLookup>) -> Vec<String> {
    lookups
        .into_iter()
        .map(|lookup| match lookup {
            SessionLookup::ByName(name) => name,
            SessionLookup::ByPath => text("<path>"),
        })
        .collect()
}

#[test]
fn sessions_are_looked_for_in_order() {
    let project = root("/home/me/work/proj");
    assert_eq!(
        names(find_matching_tmux_session(
            &link(JumpLinkKind::Github, "a", Some("repo")),
            &project
        )),
        vec!["repo", "<path>", "work", "me", "home", "proj"]
    );
    assert_eq!(
        names(find_matching_tmux_session(
            &link(JumpLinkKind::Relative, "a", Some("repo")),
            &project
        )),
        vec!["<path>", "work", "me", "home", "proj"]
    );
    assert_eq!(
        names(find_matching_tmux_session(
            &link(JumpLinkKind::Absolute, "/a", None),
            &root("/")
        )),
        vec!["<path>", "/"]
    );
}

#[test]
fn jumps_begin_with_their_links() {
    let (_, first) = jump::jump(JumpInput { link: text("/a/b.rs:3"), markers: None });
    assert!(matches!(
        first,
        ResolveAction::Lookup(RootAction::ScanFrom { start, .. }) if start == "/a"
    ));
}

fn resolved() -> ResolveLinkOutput {
    ResolveLinkOutput {
        request: link(JumpLinkKind::Relative, "a.rs", None),
        materialized: target("/w/p/a.rs", Some(7)),
        root: root("/w/p"),
    }
}

fn pane() -> NvimPaneInfo {
    NvimPaneInfo {
        session: text("p"),
        window: text("1"),
        pane: text("0"),
        nvim_pid: 9,
    }
}

fn finished(action: JumpAction) -> (String, String, String, Option<u32>) {
    match action {
        JumpAction::Finished(o) => (o.status, o.session, o.file, o.line),
        _ => panic!("the jump has ended"),
    }
}

fn success(session: &str) -> (String, String, String, Option<u32>) {
    (text("success"), text(session), text("/w/p/a.rs"), Some(7))
}

#[test]
fn files_are_opened_in_running_editors() {
    let (mut jump, first) = Jump::begin(resolved());
    assert!(matches!(first, JumpAction::Lookup(SessionLookup::ByPath)));
    let action = jump.step(JumpEvent::Session(Err(text("tmux is gone"))));
    assert!(matches!(
        action,
        JumpAction::Lookup(SessionLookup::ByName(name)) if name == "w"
    ));
    let action = jump.step(JumpEvent::Session(Ok(Some(session("w")))));
    assert!(matches!(action, JumpAction::FindPane(name) if name == "w"));
    let action = jump.step(JumpEvent::Pane(Ok(Some(FoundPane {
        pane: pane(),
        socket: text("/run/nvim"),
        socket_exists: true,
    }))));
    match action {
        JumpAction::OpenInEditor(instance) => {
            assert_eq!(instance.address, "/run/nvim");
            assert_eq!(instance.session_name.as_deref(), Some("w"));
            assert_eq!(instance.cwd.as_deref(), Some("/w/p"));
        }
        _ => panic!("the editor is to open the file"),
    }
    assert!(matches!(
        jump.step(JumpEvent::Opened(Ok(()))),
        JumpAction::FindTerminal
    ));
    assert!(matches!(
        jump.step(JumpEvent::Terminal(Some(33))),
        JumpAction::FocusTerminal(33)
    ));
    assert!(matches!(
        jump.step(JumpEvent::Shown),
        JumpAction::SwitchClient { pid: 33, session } if session == "w"
    ));
    assert!(matches!(
        jump.step(JumpEvent::Shown),
        JumpAction::SelectPane(p) if p.pane_target() == "p:1.0"
    ));
    assert_eq!(finished(jump.step(JumpEvent::Shown)), success("w"));
}

#[test]
fn files_are_opened_in_new_windows() {
    for found in [
        None,
        Some(FoundPane { pane: pane(), socket: text("/run/nvim"), socket_exists: false }),
    ] {
        let (mut jump, _) = Jump::begin(resolved());
        jump.step(JumpEvent::Session(Ok(Some(session("p")))));
        match jump.step(JumpEvent::Pane(Ok(found))) {
            JumpAction::OpenWindow { session, directory } => {
                assert_eq!((session.as_str(), directory.as_str()), ("p", "/w/p"))
            }
            _ => panic!("a window is to be opened"),
        }
        jump.step(JumpEvent::Opened(Ok(())));
        assert!(matches!(
            jump.step(JumpEvent::Terminal(None)),
            JumpAction::Activate(name) if name == "p"
        ));
        assert_eq!(finished(jump.step(JumpEvent::Shown)), success("p"));
    }
}

fn without_a_session() -> Jump {
    let (mut jump, _) = Jump::begin(resolved());
    jump.step(JumpEvent::Session(Ok(None)));
    jump.step(JumpEvent::Session(Ok(None)));
    assert!(matches!(
        jump.step(JumpEvent::Session(Ok(None))),
        JumpAction::FindRepoSession
    ));
    jump
}

#[test]
fn sessions_are_made_where_there_are_none() {
    let mut jump = without_a_session();
    match jump.step(JumpEvent::Session(Ok(None))) {
        JumpAction::Spawn { name, directory } => {
            assert_eq!((name.as_str(), directory.as_str()), ("p", "/w/p"))
        }
        _ => panic!("a session is to be made"),
    }
    assert!(matches!(
        jump.step(JumpEvent::Spawned(Ok(session("p")))),
        JumpAction::LocateEditor(info) if info.name == "p" && info.path == "/p"
    ));
    assert!(matches!(
        jump.step(JumpEvent::Editor(Ok(None))),
        JumpAction::OpenWindow { session, directory } if session == "p" && directory == "/w/p"
    ));
    assert!(matches!(
        jump.step(JumpEvent::Opened(Ok(()))),
        JumpAction::Activate(name) if name == "p"
    ));
    assert_eq!(finished(jump.step(JumpEvent::Shown)), success("p"));
}

#[test]
fn sessions_that_appear_late_are_taken() {
    let mut jump = without_a_session();
    assert!(matches!(
        jump.step(JumpEvent::Session(Ok(Some(session("late"))))),
        JumpAction::LocateEditor(info) if info.name == "late"
    ));
    let editor = nvim_instance("late", &root("/w/p"), text("/run/x"));
    assert!(matches!(
        jump.step(JumpEvent::Editor(Ok(Some(editor)))),
        JumpAction::OpenInEditor(instance) if instance.address == "/run/x"
    ));
    jump.step(JumpEvent::Opened(Ok(())));
    assert_eq!(finished(jump.step(JumpEvent::Shown)), success("late"));
}

#[test]
fn failures_end_a_jump() {
    let no = || text("no");
    let fails = |action: JumpAction| matches!(action, JumpAction::Failed(cause) if cause == "no");
    let (mut jump, _) = Jump::begin(resolved());
    jump.step(JumpEvent::Session(Ok(Some(session("p")))));
    assert!(fails(jump.step(JumpEvent::Pane(Err(no())))));
    let (mut jump, _) = Jump::begin(resolved());
    jump.step(JumpEvent::Session(Ok(Some(session("p")))));
    jump.step(JumpEvent::Pane(Ok(None)));
    assert!(fails(jump.step(JumpEvent::Opened(Err(no())))));
    let mut jump = without_a_session();
    assert!(fails(jump.step(JumpEvent::Session(Err(no())))));
    let mut jump = without_a_session();
    jump.step(JumpEvent::Session(Ok(None)));
    assert!(fails(jump.step(JumpEvent::Spawned(Err(no())))));
    let mut jump = without_a_session();
    jump.step(JumpEvent::Session(Ok(Some(session("p")))));
    assert!(fails(jump.step(JumpEvent::Editor(Err(no())))));
}

#[test]
fn outcomes_name_the_target() {
    let outcome = build_outcome(text("s"), &target("/a", None));
    assert_eq!(outcome.status, "success");
    assert_eq!(outcome.session, "s");
    assert_eq!(outcome.file, "/a");
    assert_eq!(outcome.line, None);
}

#[test]
fn session_manager_uses_correct_format_strings() {
    assert!(list_arguments().contains(&"#{session_name} #{session_path}".to_string()));
    let sessions = parse_sessions("dev /home/user/dev\n");
    assert_eq!(sessions.len(), 1);
    assert_eq!(sessions[0].name, "dev");
    assert_eq!(sessions[0].path, "/home/user/dev");
}

#[test]
fn session_manager_spawn_builds_correct_command() {
    let target_file = MaterializedPath {
        absolute: text("/tmp/repo/main.rs"),
        relative: Some(text("main.rs")),
        line: Some(42),
        end_line: None,
        kind: JumpLinkKind::Relative,
        revision: None,
    };
    let call = spawn_arguments("mydev", "/tmp/repo", &target_file);
    assert_eq!(call[0], "new-session");
    assert_eq!(call[1], "-d");
    assert_eq!(call[2], "-s");
    assert_eq!(call[3], "mydev");
    assert!(call[6].contains("nvim +42"));
    assert_eq!(call.len(), 7);
    assert_eq!(
        window_arguments("s", "/d", &target("/d/a", None)),
        vec!["new-window", "-t", "s", "-c", "/d", "nvim '/d/a'"]
    );
}

#[test]
fn paths_are_quoted_for_the_shell() {
    assert_eq!(
        editor_command(&target("/it's/a b.rs", Some(3))),
        "nvim +3 '/it'\\''s/a b.rs'"
    );
    assert_eq!(editor_command(&target("", None)), "nvim ''");
}

#[test]
fn sessions_are_found_by_name_and_path() {
    let sessions = parse_sessions("a /x\nno-path\nb /y z\na /w\n");
    assert_eq!(sessions.len(), 3);
    assert_eq!(sessions[1].path, "/y z");
    let named = find_session(&sessions, &SessionLookup::ByName(text("a")), "/w").unwrap();
    assert_eq!(named.path, "/x");
    let placed = find_session(&sessions, &SessionLookup::ByPath, "/w").unwrap();
    assert_eq!(placed.name, "a");
    assert!(find_session(&sessions, &SessionLookup::ByName(text("c")), "/w").is_none());
    assert!(find_session(&sessions, &SessionLookup::ByPath, "/").is_none());
}

#[test]
fn panes_with_editors_are_found() {
    assert_eq!(
        pane_arguments("s"),
        vec!["list-panes", "-s", "-t", "s", "-F", PANE_FORMAT]
    );
    let list = "0 0 11 zsh\n1 0 x nvim\n1 1 12\n2 1 12345 nvim\n3 0 13 nvim\n";
    let pane = find_nvim_pane("dev", list).unwrap();
    assert_eq!(pane.pane_target(), "dev:2.1");
    assert_eq!(pane.nvim_pid, 12345);
    assert!(find_nvim_pane("dev", "0 0 11 zsh\n").is_none());
    assert!(find_nvim_pane("dev", "0 0 4294967296 nvim\n").is_none());
}

#[test]
fn locates_nvim_socket_in_search_dir() {
    let sockets = vec![text("/tmp/search/nvim_test_socket/0")];
    let address = choose_socket(None, &sockets, "dev");
    assert!(address.is_some(), "should find nvim instance");
    assert_eq!(address.as_deref(), Some("/tmp/search/nvim_test_socket/0"));
}

#[test]
fn locates_nvim_from_env_var() {
    let named = Some(text("/tmp/search/nvim_env_socket"));
    let address = choose_socket(named, &Vec::new(), "dev");
    assert!(address.is_some(), "should find nvim from env");
    assert_eq!(address.as_deref(), Some("/tmp/search/nvim_env_socket"));
}

#[test]
fn prefers_socket_matching_session_name() {
    let sockets = vec![
        text("/tmp/search/nvim_other/0"),
        text("/tmp/search/nvim_myproject/0"),
    ];
    let address = choose_socket(None, &sockets, "myproject");
    assert!(address.is_some());
    assert!(
        address.unwrap().contains("myproject"),
        "should prefer socket matching session name"
    );
}

#[test]
fn returns_none_when_no_nvim_running() {
    assert!(
        choose_socket(None, &Vec::new(), "dev").is_none(),
        "should not find any instance"
    );
}

#[test]
fn sockets_of_the_session_are_preferred() {
    let sockets = vec![text("/tmp/nvim_other/0"), text("/tmp/nvim_myproject/0")];
    assert_eq!(
        choose_socket(None, &sockets, "myproject").as_deref(),
        Some("/tmp/nvim_myproject/0")
    );
    assert_eq!(
        choose_socket(None, &sockets, "dev").as_deref(),
        Some("/tmp/nvim_other/0")
    );
    assert_eq!(
        choose_socket(Some(text("/tmp/nvim_env_socket")), &sockets, "dev").as_deref(),
        Some("/tmp/nvim_env_socket")
    );
    assert_eq!(choose_socket(None, &Vec::new(), "dev"), None);
}

#[test]
fn editors_are_told_to_open_files() {
    let instance = nvim_instance("s", &root("/p"), text("/run/x"));
    assert_eq!(
        open_arguments(&instance, &target("/p/a", Some(4))),
        vec!["--servername", "/run/x", "--remote-silent", "+4", "/p/a"]
    );
    assert_eq!(
        open_arguments(&instance, &target("/p/a", None)),
        vec!["--servername", "/run/x", "--remote-silent", "/p/a"]
    );
}

#[test]
fn repositories_are_found_by_their_remotes() {
    for address in [
        "git@github.com:example/repo.git",
        "ssh://git@github.com/example/repo.git",
        "https://github.com/example/repo.git",
        "https://github.com/example/repo",
    ] {
        assert_eq!(find_repository(address).as_deref(), Some("example/repo"));
    }
    assert_eq!(find_repository("https://gitlab.com/example/repo"), None);
    assert_eq!(find_repository(""), None);
}

#[test]
fn permanent_links_are_written() {
    let link = permalink("rust-lang/rust", "abc123", "library/std/src/path.rs", 42, None);
    assert_eq!(
        link.url,
        "https://github.com/rust-lang/rust/blob/abc123/library/std/src/path.rs#L42"
    );
    assert_eq!(
        link.markdown,
        "[library/std/src/path.rs#L42](https://github.com/rust-lang/rust/blob/abc123/library/std/src/path.rs#L42)"
    );
    assert_eq!(link.relative_path, "library/std/src/path.rs");
    assert_eq!(link.revision, "abc123");
    assert_eq!((link.lines.start, link.lines.end), (42, None));
    assert_eq!(link.provider, "github");
}

#[test]
fn permanent_links_lead_back() {
    for end in [None, Some(u32::MAX)] {
        let link = permalink("o/r", "main", "src/a b.rs", 3, end);
        let request = parse_link(&link.url).unwrap();
        assert_eq!(request.kind, JumpLinkKind::Github);
        assert_eq!(request.path, "src/a b.rs");
        assert_eq!((request.line, request.end_line), (Some(3), end));
        assert_eq!(request.repo_name.as_deref(), Some("r"));
        assert_eq!(request.revision.as_deref(), Some("main"));
    }
}
