//! What the log says about the desktop, the sessions and the editors around a jump.

use vstd::prelude::*;
use vstd::string::*;

use crate::json::{field_of, parsed_bytes, read_json_bytes, text_of, Json, JsonTree};
use crate::records::HyprlandWindow;
use crate::text::{
    contains, decimal, decimal_of, has_text, line_list, lines, same_text, string_views, views,
};

verus! {

/// The decimal numeral of an integer.
pub open spec fn integer_text(n: int) -> Seq<char> {
    if n < 0 {
        "-"@ + decimal_of((-n) as nat)
    } else {
        decimal_of(n as nat)
    }
}

/// The decimal numeral of an integer.
pub fn integer(n: i64) -> (r: String)
    ensures
        r@ == integer_text(n as int),
{
    if n < 0 {
        let mut out: String = "-".to_string();
        let size: u64 = (0i128 - n as i128) as u64;
        out.append(decimal(size).as_str());
        out
    } else {
        decimal(n as u64)
    }
}

/// How the log names the window that the document describes.
pub open spec fn window_text(window: JsonTree) -> Seq<char> {
    let class = match text_of(window.field("class"@)) {
        Some(class) => class,
        None => "?"@,
    };
    let pid = match window.field("pid"@) {
        Some(pid) => match pid.unsigned() {
            Some(n) => n,
            None => 0,
        },
        None => 0,
    };
    let workspace = match field_of(window.field("workspace"@), "id"@) {
        Some(id) => match id.signed() {
            Some(n) => n,
            None => 0,
        },
        None => 0,
    };
    class + "(pid="@ + decimal_of(pid as nat) + ", ws="@ + integer_text(workspace as int) + ")"@
}

/// How the log names the window that the document describes.
pub fn window_label(window: &Json) -> (r: String)
    ensures
        r@ == window_text(window@),
{
    let class: &str = match window.get("class") {
        Some(class) => match class.as_str() {
            Some(text) => text,
            None => "?",
        },
        None => "?",
    };
    let pid: u64 = match window.get("pid") {
        Some(pid) => match pid.as_u64() {
            Some(n) => n,
            None => 0,
        },
        None => 0,
    };
    let workspace: i64 = match window.get("workspace") {
        Some(workspace) => match workspace.get("id") {
            Some(id) => match id.as_i64() {
                Some(n) => n,
                None => 0,
            },
            None => 0,
        },
        None => 0,
    };
    let mut out: String = class.to_string();
    out.append("(pid=");
    out.append(decimal(pid).as_str());
    out.append(", ws=");
    out.append(integer(workspace).as_str());
    out.append(")");
    out
}

/// How the log names the active window; `output` is what `hyprctl` has written about it.
pub fn active_window(output: &[u8]) -> (r: Option<String>)
    ensures
        match r {
            Some(label) => parsed_bytes(output@) matches Some(window) && label@ == window_text(
                window,
            ),
            None => parsed_bytes(output@) is None,
        },
{
    match read_json_bytes(output) {
        Ok(window) => Some(window_label(&window)),
        Err(_) => None,
    }
}

/// How the log names the windows of kitty.
pub open spec fn kitty_texts(windows: Seq<HyprlandWindow>) -> Seq<Seq<char>>
    decreases windows.len(),
{
    if windows.len() == 0 {
        seq![]
    } else {
        let before = kitty_texts(windows.drop_last());
        let window = windows.last();
        if window.class@ == "kitty"@ {
            before.push(
                decimal_of(window.pid as nat) + "@ws"@ + integer_text(window.workspace.id as int),
            )
        } else {
            before
        }
    }
}

/// How the log names the windows of kitty.
pub fn kitty_windows(windows: &Vec<HyprlandWindow>) -> (r: Vec<String>)
    ensures
        string_views(r@) == kitty_texts(windows@),
{
    let mut out: Vec<String> = Vec::new();
    let mut i: usize = 0;
    assert(string_views(out@) =~= kitty_texts(windows@.take(0)));
    while i < windows.len()
        invariant
            i <= windows.len(),
            string_views(out@) == kitty_texts(windows@.take(i as int)),
        decreases windows.len() - i,
    {
        let window: &HyprlandWindow = &windows[i];
        let ghost before = string_views(out@);
        assert(windows@.take(i + 1).drop_last() =~= windows@.take(i as int));
        if same_text(window.class.as_str(), "kitty") {
            let mut label: String = decimal(window.pid as u64);
            label.append("@ws");
            label.append(integer(window.workspace.id).as_str());
            let ghost text = label@;
            out.push(label);
            assert(string_views(out@) =~= before.push(text));
        }
        i += 1;
    }
    assert(windows@.take(i as int) =~= windows@);
    out
}

/// The sessions that a list of tmux names.
pub fn session_names(output: &str) -> (r: Vec<String>)
    ensures
        string_views(r@) == line_list(output@),
{
    let all: Vec<&str> = lines(output);
    let mut out: Vec<String> = Vec::new();
    let mut i: usize = 0;
    while i < all.len()
        invariant
            i <= all.len(),
            string_views(out@) == views(all@).take(i as int),
        decreases all.len() - i,
    {
        let ghost before = string_views(out@);
        out.push(all[i].to_string());
        assert(string_views(out@) =~= before.push(all@[i as int]@));
        assert(views(all@).take(i + 1) =~= before.push(all@[i as int]@));
        i += 1;
    }
    assert(views(all@).take(i as int) =~= views(all@));
    out
}

/// The panes whose command is an editor: the lines of `panes` beside which `commands` has one.
pub open spec fn editor_panes(panes: Seq<Seq<char>>, commands: Seq<Seq<char>>) -> Seq<Seq<char>>
    decreases panes.len(),
{
    if panes.len() == 0 || commands.len() == 0 {
        seq![]
    } else {
        let rest = editor_panes(panes.drop_first(), commands.drop_first());
        if has_text(commands[0], "nvim"@) {
            seq![panes[0]] + rest
        } else {
            rest
        }
    }
}

/// The panes in which an editor runs; the two lists have a line for each pane.
pub fn nvim_panes(panes: &str, commands: &str) -> (r: Vec<String>)
    ensures
        string_views(r@) == editor_panes(line_list(panes@), line_list(commands@)),
{
    let names: Vec<&str> = lines(panes);
    let runs: Vec<&str> = lines(commands);
    let ghost all_names = views(names@);
    let ghost all_runs = views(runs@);
    let mut out: Vec<String> = Vec::new();
    let mut i: usize = 0;
    assert(all_names.skip(0) =~= all_names);
    assert(all_runs.skip(0) =~= all_runs);
    assert(string_views(out@) + editor_panes(all_names, all_runs) =~= editor_panes(
        all_names,
        all_runs,
    ));
    while i < names.len() && i < runs.len()
        invariant
            i <= names.len(),
            i <= runs.len(),
            all_names == views(names@),
            all_runs == views(runs@),
            string_views(out@) + editor_panes(all_names.skip(i as int), all_runs.skip(i as int))
                == editor_panes(all_names, all_runs),
        decreases names.len() - i,
    {
        let ghost before = string_views(out@);
        let ghost rest = editor_panes(all_names.skip(i + 1), all_runs.skip(i + 1));
        assert(all_names.skip(i as int).drop_first() =~= all_names.skip(i + 1));
        assert(all_runs.skip(i as int).drop_first() =~= all_runs.skip(i + 1));
        if contains(runs[i], "nvim") {
            out.push(names[i].to_string());
            assert(string_views(out@) =~= before.push(names@[i as int]@));
            assert(string_views(out@) + rest =~= before + (seq![names@[i as int]@] + rest));
        }
        i += 1;
    }
    assert(string_views(out@) + Seq::<Seq<char>>::empty() =~= string_views(out@));
    out
}

/// The windows of kitty are named in their order, each by its process and its workspace, and no other
/// window is.
pub proof fn lemma_kitty_windows_are_named_in_order(
    before: Seq<HyprlandWindow>,
    window: HyprlandWindow,
    after: Seq<HyprlandWindow>,
)
    ensures
        kitty_texts(before + after) == kitty_texts(before) + kitty_texts(after),
        kitty_texts(seq![window]) == if window.class@ == "kitty"@ {
            seq![decimal_of(window.pid as nat) + "@ws"@ + integer_text(window.workspace.id as int)]
        } else {
            Seq::<Seq<char>>::empty()
        },
    decreases after.len(),
{
    reveal_with_fuel(kitty_texts, 2);
    assert(seq![window].drop_last() =~= Seq::<HyprlandWindow>::empty());
    assert(kitty_texts(Seq::<HyprlandWindow>::empty()) =~= Seq::<Seq<char>>::empty());
    assert(kitty_texts(seq![window]) =~= if window.class@ == "kitty"@ {
        seq![decimal_of(window.pid as nat) + "@ws"@ + integer_text(window.workspace.id as int)]
    } else {
        Seq::<Seq<char>>::empty()
    });
    if after.len() == 0 {
        assert(before + after =~= before);
        assert(kitty_texts(before) + kitty_texts(after) =~= kitty_texts(before));
    } else {
        let whole = before + after;
        lemma_kitty_windows_are_named_in_order(before, window, after.drop_last());
        assert(whole.drop_last() =~= before + after.drop_last());
        assert(whole.last() == after.last());
        assert(kitty_texts(whole) =~= kitty_texts(before) + kitty_texts(after));
    }
}

/// The panes in which an editor runs come in their order: each line of the one list belongs to the
/// line at the same place of the other.
pub proof fn lemma_editor_panes_come_in_order(
    panes: Seq<Seq<char>>,
    commands: Seq<Seq<char>>,
    more_panes: Seq<Seq<char>>,
    more_commands: Seq<Seq<char>>,
)
    requires
        panes.len() == commands.len(),
    ensures
        editor_panes(panes + more_panes, commands + more_commands) == editor_panes(panes, commands)
            + editor_panes(more_panes, more_commands),
    decreases panes.len(),
{
    let all = panes + more_panes;
    let runs = commands + more_commands;
    if panes.len() == 0 {
        assert(all =~= more_panes);
        assert(runs =~= more_commands);
        assert(editor_panes(panes, commands) + editor_panes(more_panes, more_commands)
            =~= editor_panes(more_panes, more_commands));
    } else {
        lemma_editor_panes_come_in_order(
            panes.drop_first(),
            commands.drop_first(),
            more_panes,
            more_commands,
        );
        assert(all.drop_first() =~= panes.drop_first() + more_panes);
        assert(runs.drop_first() =~= commands.drop_first() + more_commands);
        assert(editor_panes(all, runs) =~= editor_panes(panes, commands) + editor_panes(
            more_panes,
            more_commands,
        ));
    }
}

/// A pane is one in which an editor runs where its command says so; a pane without a command is not,
/// and a command without a pane does not count.
pub proof fn lemma_editor_panes_are_told_by_command(
    pane: Seq<char>,
    command: Seq<char>,
    others: Seq<Seq<char>>,
)
    ensures
        has_text(command, "nvim"@) ==> editor_panes(seq![pane], seq![command]) == seq![pane],
        !has_text(command, "nvim"@) ==> editor_panes(seq![pane], seq![command]).len() == 0,
        editor_panes(others, seq![]).len() == 0,
        editor_panes(seq![], others).len() == 0,
{
    reveal_with_fuel(editor_panes, 2);
    assert(seq![pane].drop_first() =~= Seq::<Seq<char>>::empty());
    if has_text(command, "nvim"@) {
        assert(editor_panes(seq![pane], seq![command]) =~= seq![pane]);
    }
}

/// A window is named by its class, its process and its workspace; what is missing shows as `?` or 0.
pub proof fn lemma_windows_are_named(
    window: JsonTree,
    class: Seq<char>,
    pid: u64,
    workspace: i64,
)
    requires
        window.field("class"@) == Some(JsonTree::Text(class)) || text_of(window.field("class"@))
            is None && class == "?"@,
        window.field("pid"@) == Some(JsonTree::Integer(pid as int)) || (window.field("pid"@)
            matches Some(number) ==> number.unsigned() is None) && pid == 0,
        field_of(window.field("workspace"@), "id"@) == Some(JsonTree::Integer(workspace as int))
            || (field_of(window.field("workspace"@), "id"@) matches Some(number) ==> number.signed()
            is None) && workspace == 0,
    ensures
        window_text(window) == class + "(pid="@ + decimal_of(pid as nat) + ", ws="@ + integer_text(
            workspace as int,
        ) + ")"@,
{
}

/// An integer is written by its digits, with a minus before them where it is negative.
pub proof fn lemma_integers_are_written(n: nat)
    ensures
        integer_text(n as int) == decimal_of(n),
        n > 0 ==> integer_text(-(n as int)) == "-"@ + decimal_of(n),
{
}

} // verus!
