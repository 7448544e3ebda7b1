//! What is told to the user and to the log.

use jump::app::requests::JumpOutcome;
use jump::context::{
    active_window, integer, kitty_windows, nvim_panes, session_names, window_label,
};
use jump::hyprland::{find_largest_kitty, read_clients};
use jump::json::read_json;
use jump::notice::{failure_notice, jump_notice, notify, NOTICE_TIMEOUT_MS};
use jump::records::{HyprlandWindow, Workspace};
use jump::system::{
    all_ok, checks, hyprland_active, is_cuttable, judge, tmux_sessions, verify_system,
    version_display, Check, SystemReport, ToolResult, ToolRun,
};

fn ended(success: bool, stdout: &str, stderr: &str) -> ToolRun {
    ToolRun::Ended {
        success,
        stdout: stdout.to_string(),
        stderr: stderr.to_string(),
    }
}

#[test]
fn six_tools_are_checked() {
    let all: Vec<(String, String, bool, bool)> = checks()
        .into_iter()
        .map(|c: Check| {
            assert_eq!(c.name, c.cmd);
            (c.name.to_string(), c.args.join(" "), c.required, c.check_exists_only)
        })
        .collect();
    let expected = [
        ("tmux", "-V", true, false),
        ("nvim", "--version", true, false),
        ("nvr", "--help", true, true),
        ("git", "--version", true, false),
        ("hyprctl", "version", false, false),
        ("pstree", "-p 1", true, true),
    ];
    assert_eq!(all.len(), expected.len());
    for (have, want) in all.iter().zip(expected) {
        assert_eq!(
            (have.0.as_str(), have.1.as_str(), have.2, have.3),
            want
        );
    }
}

#[test]
fn tools_are_judged() {
    let all = checks();
    let (tmux, nvr) = (&all[0], &all[2]);
    let result = judge(tmux, &ended(true, "  tmux 3.4 \nmore", ""));
    assert!(result.found);
    assert_eq!(result.version, "tmux 3.4");
    assert_eq!(result.name, "tmux");
    assert!(result.required);
    assert_eq!(judge(tmux, &ended(true, "", "x")).version, "");
    let result = judge(tmux, &ended(false, "out", "said so\n"));
    assert!(result.found);
    assert_eq!(result.version, "said so");
    let result = judge(tmux, &ended(false, "out", " \n"));
    assert!(!result.found);
    assert_eq!(result.version, "installed but failed");
    let result = judge(tmux, &ToolRun::Missing);
    assert!(!result.found);
    assert_eq!(result.version, "not found");
    for run in [ended(true, "x", ""), ended(false, "", "")] {
        let result = judge(nvr, &run);
        assert!(result.found);
        assert_eq!(result.version, "ok");
    }
    assert!(!judge(nvr, &ToolRun::Missing).found);
}

fn tool(name: &'static str, found: bool, required: bool, version: &str) -> ToolResult {
    ToolResult { name, found, version: version.to_string(), required }
}

#[test]
fn only_required_tools_count() {
    assert!(all_ok(&Vec::new()));
    assert!(all_ok(&vec![tool("a", true, true, ""), tool("b", false, false, "")]));
    assert!(!all_ok(&vec![tool("a", false, true, ""), tool("b", true, false, "")]));
}

#[test]
fn long_versions_are_cut() {
    let fifty = "x".repeat(50);
    assert_eq!(version_display(&fifty), fifty);
    let more = "y".repeat(51);
    assert_eq!(version_display(&more), format!("{}...", "y".repeat(47)));
    assert_eq!(version_display(&more).len(), 50);
    assert!(is_cuttable(&more));
    assert!(is_cuttable("☃"));
    let snow = "☃".repeat(17);
    assert!(!is_cuttable(&snow));
    let mixed = format!("ab{}", "☃".repeat(17));
    assert!(is_cuttable(&mixed));
    assert_eq!(version_display(&mixed), format!("ab{}...", "☃".repeat(15)));
}

#[test]
fn services_are_judged() {
    assert_eq!(tmux_sessions(&ended(true, "a\nb\n", "")), Some(2));
    assert_eq!(tmux_sessions(&ended(false, "a", "")), None);
    assert_eq!(tmux_sessions(&ToolRun::Missing), None);
    assert!(hyprland_active(&ended(true, "", "")));
    assert!(!hyprland_active(&ended(false, "", "")));
    assert!(!hyprland_active(&ToolRun::Missing));
}

#[test]
fn the_report_is_written() {
    let (text, ok) = verify_system(&SystemReport {
        tools: vec![
            tool("tmux", true, true, "tmux 3.4"),
            tool("hyprctl", false, false, "not found"),
        ],
        tmux_sessions: Some(12),
        hyprland: false,
        log_path: "/c/jump/jump.log".to_string(),
        log_exists: true,
    });
    assert!(ok);
    assert_eq!(
        text,
        "\x1b[1mJump System Verification\x1b[0m\n\
         ========================\n\n\
         \x1b[1mTools:\x1b[0m\n  \
         \x1b[32m✓\x1b[0m tmux       (required) \x1b[2mtmux 3.4\x1b[0m\n  \
         \x1b[31m✗\x1b[0m hyprctl    \x1b[2m(optional)\x1b[0m \x1b[2mnot found\x1b[0m\n\
         \n\x1b[1mServices:\x1b[0m\n  \
         tmux server:  \x1b[32m✓\x1b[0m 12 sessions\n  \
         hyprland:     \x1b[2m-\x1b[0m not running\n\
         \n\x1b[1mLog file:\x1b[0m\n  \
         \x1b[32m✓\x1b[0m \x1b[2m/c/jump/jump.log\x1b[0m\n\
         \n\x1b[1m\x1b[32mAll required tools are available.\x1b[0m\n"
    );
    let (text, ok) = verify_system(&SystemReport {
        tools: vec![tool("git", false, true, "not found")],
        tmux_sessions: None,
        hyprland: true,
        log_path: "/l".to_string(),
        log_exists: false,
    });
    assert!(!ok);
    assert!(text.contains("tmux server:  \x1b[31m✗\x1b[0m not running\n"));
    assert!(text.contains("hyprland:     \x1b[32m✓\x1b[0m active\n"));
    assert!(text.contains("  \x1b[2m-\x1b[0m \x1b[2m/l\x1b[0m\n"));
    assert!(text.ends_with("\x1b[1m\x1b[31mSome required tools are missing.\x1b[0m\n"));
}

#[test]
fn windows_have_labels() {
    assert_eq!(
        active_window(b"{\"class\":\"kitty\",\"pid\":12,\"workspace\":{\"id\":-98}}").as_deref(),
        Some("kitty(pid=12, ws=-98)")
    );
    assert_eq!(active_window(b"{}").as_deref(), Some("?(pid=0, ws=0)"));
    assert_eq!(active_window(b"no json"), None);
    assert_eq!(
        window_label(&read_json("{\"class\":1,\"pid\":-3,\"workspace\":7}").unwrap()),
        "?(pid=0, ws=0)"
    );
    assert_eq!(window_label(&read_json("[]").unwrap()), "?(pid=0, ws=0)");
}

#[test]
fn integers_are_written() {
    for n in [0i64, 5, -5, i64::MAX, i64::MIN] {
        assert_eq!(integer(n), n.to_string());
    }
}

#[test]
fn windows_of_kitty_are_listed() {
    let window = |class: &str, pid: u32, id: i64| HyprlandWindow {
        class: class.to_string(),
        pid,
        workspace: Workspace { id },
    };
    let all = vec![window("kitty", 3, 1), window("firefox", 4, 1), window("kitty", 5, -2)];
    assert_eq!(kitty_windows(&all), vec!["3@ws1", "5@ws-2"]);
}

#[test]
fn panes_with_editors_are_listed() {
    assert_eq!(
        nvim_panes("a:0.0\nb:1.0\nc:2.0\n", "nvim\nzsh\n/usr/bin/nvim\nnvim\n"),
        vec!["a:0.0", "c:2.0"]
    );
    assert_eq!(nvim_panes("a:0.0\nb:1.0\n", "nvim\n"), vec!["a:0.0"]);
    assert!(nvim_panes("", "nvim").is_empty());
    assert_eq!(session_names("dev\nwork\n"), vec!["dev", "work"]);
    assert!(session_names("").is_empty());
}

#[test]
fn jumps_are_announced() {
    let outcome = |file: &str, line: Option<u32>| JumpOutcome {
        status: "success".to_string(),
        session: "s".to_string(),
        file: file.to_string(),
        line,
    };
    let notice = jump_notice(&outcome("/a/b.rs", Some(7)));
    assert_eq!(notice.title, "Jump");
    assert_eq!(notice.body, "b.rs:7");
    assert_eq!(notice.icon, "dialog-information");
    assert!(!notice.critical);
    assert_eq!(jump_notice(&outcome("/a/b.rs", None)).body, "b.rs");
    assert_eq!(jump_notice(&outcome("/", None)).body, "/");
    let notice = failure_notice("why");
    assert_eq!(notice.title, "Jump failed");
    assert_eq!(notice.body, "why");
    assert_eq!(notice.icon, "dialog-error");
    assert!(notice.critical);
    assert!(!notify("t", "m", true).critical);
    assert_eq!(NOTICE_TIMEOUT_MS, 3000);
}

#[test]
fn the_largest_kitty_is_found() {
    let list = read_json(
        "[{\"class\":\"kitty\",\"pid\":1,\"workspace\":{\"id\":1},\"size\":[10,20]},\
         {\"class\":\"kitty\",\"pid\":2,\"workspace\":{\"id\":1},\"size\":[20,10]},\
         {\"class\":\"kitty\",\"pid\":3,\"workspace\":{\"id\":1},\"size\":[5]},\
         {\"class\":\"kitty\",\"pid\":4,\"workspace\":{\"id\":2},\"size\":[4294967295,4294967295]},\
         {\"class\":\"firefox\",\"pid\":5,\"workspace\":{\"id\":1},\"size\":[99,99]},7]",
    )
    .unwrap();
    let clients = read_clients(&list);
    assert_eq!(clients.len(), 6);
    assert_eq!(clients[4].window.class, "firefox");
    assert_eq!((clients[0].width, clients[0].height), (10, 20));
    assert_eq!(find_largest_kitty(&clients, 1), Some(2));
    assert_eq!(find_largest_kitty(&clients, 2), Some(4));
    assert_eq!(find_largest_kitty(&clients, 3), None);
    assert!(read_clients(&read_json("{}").unwrap()).is_empty());
}
