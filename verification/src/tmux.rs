//! How tmux is asked for sessions and panes, and told to open files.

use vstd::prelude::*;
use vstd::string::*;

use crate::app::session::{LookupView, SessionLookup};
use crate::records::{MaterializedPath, NvimPaneInfo, PaneView, SessionInfo, SessionView};
use crate::text::{
    after_char, before_char, chars_of, contains, decimal, decimal_of, has_text,
    lemma_char_position_facts, lemma_split_at_char, lemma_views, line_list, lines, numeral_value,
    parse_usize, same_text, string_views, take_after, take_before, views, word_list, words,
};

verus! {

/// How tmux writes a session: its name and its path.
pub const SESSION_FORMAT: &'static str = "#{session_name} #{session_path}";

/// How tmux writes a pane: its window, its place there, its process and its command.
pub const PANE_FORMAT: &'static str =
    "#{window_index} #{pane_index} #{pane_pid} #{pane_current_command}";

fn push_text(list: &mut Vec<String>, text: &str)
    ensures
        string_views(final(list)@) == string_views(old(list)@).push(text@),
{
    let ghost before = string_views(list@);
    list.push(text.to_string());
    assert(string_views(list@) =~= before.push(text@));
}

/// The arguments that list the sessions.
pub fn list_arguments() -> (r: Vec<String>)
    ensures
        string_views(r@) == seq!["list-sessions"@, "-F"@, SESSION_FORMAT@],
{
    let mut out: Vec<String> = Vec::new();
    push_text(&mut out, "list-sessions");
    push_text(&mut out, "-F");
    push_text(&mut out, SESSION_FORMAT);
    assert(string_views(out@) =~= seq!["list-sessions"@, "-F"@, SESSION_FORMAT@]);
    out
}

/// The arguments that list the panes of a session.
pub fn pane_arguments(session: &str) -> (r: Vec<String>)
    ensures
        string_views(r@) == seq!["list-panes"@, "-s"@, "-t"@, session@, "-F"@, PANE_FORMAT@],
{
    let mut out: Vec<String> = Vec::new();
    push_text(&mut out, "list-panes");
    push_text(&mut out, "-s");
    push_text(&mut out, "-t");
    push_text(&mut out, session);
    push_text(&mut out, "-F");
    push_text(&mut out, PANE_FORMAT);
    assert(string_views(out@) =~= seq![
        "list-panes"@,
        "-s"@,
        "-t"@,
        session@,
        "-F"@,
        PANE_FORMAT@,
    ]);
    out
}

/// The sessions that lines of tmux name: each has a name and, behind a space, a path.
pub open spec fn sessions_in(lines: Seq<Seq<char>>) -> Seq<SessionView>
    decreases lines.len(),
{
    if lines.len() == 0 {
        seq![]
    } else {
        let before = sessions_in(lines.drop_last());
        match after_char(lines.last(), ' ') {
            Some(path) => before.push(SessionView { name: before_char(lines.last(), ' '), path }),
            None => before,
        }
    }
}

/// What a list of sessions says.
pub open spec fn session_views(sessions: Seq<SessionInfo>) -> Seq<SessionView> {
    sessions.map_values(|session: SessionInfo| session@)
}

/// The sessions that a list of tmux names.
pub fn parse_sessions(output: &str) -> (r: Vec<SessionInfo>)
    ensures
        session_views(r@) == sessions_in(line_list(output@)),
{
    let all: Vec<&str> = lines(output);
    let ghost list = views(all@);
    let mut out: Vec<SessionInfo> = Vec::new();
    let mut i: usize = 0;
    assert(session_views(out@) =~= sessions_in(list.take(0)));
    while i < all.len()
        invariant
            i <= all.len(),
            list == views(all@),
            session_views(out@) == sessions_in(list.take(i as int)),
        decreases all.len() - i,
    {
        let ghost before = session_views(out@);
        assert(list.take(i + 1).drop_last() =~= list.take(i as int));
        assert(list.take(i + 1).last() == all@[i as int]@);
        if let Some(path) = take_after(all[i], ' ') {
            let session: SessionInfo = SessionInfo {
                name: take_before(all[i], ' ').to_string(),
                path: path.to_string(),
            };
            let ghost view = session@;
            out.push(session);
            assert(session_views(out@) =~= before.push(view));
        }
        i += 1;
    }
    assert(list.take(i as int) =~= list);
    out
}

/// The session is what is looked for.
pub open spec fn is_sought(session: SessionView, lookup: LookupView, root: Seq<char>) -> bool {
    match lookup {
        LookupView::ByName(name) => session.name == name,
        LookupView::ByPath => session.path == root,
    }
}

/// The first session that is what is looked for.
pub open spec fn first_sought(
    sessions: Seq<SessionView>,
    lookup: LookupView,
    root: Seq<char>,
) -> Option<SessionView>
    decreases sessions.len(),
{
    if sessions.len() == 0 {
        None
    } else if is_sought(sessions[0], lookup, root) {
        Some(sessions[0])
    } else {
        first_sought(sessions.drop_first(), lookup, root)
    }
}

/// The first session that is what is looked for; `root` is the path of the project.
pub fn find_session(sessions: &Vec<SessionInfo>, lookup: &SessionLookup, root: &str) -> (r: Option<
    SessionInfo,
>)
    ensures
        match r {
            Some(session) => first_sought(session_views(sessions@), lookup@, root@) == Some(
                session@,
            ),
            None => first_sought(session_views(sessions@), lookup@, root@) is None,
        },
{
    let ghost all = session_views(sessions@);
    let mut i: usize = 0;
    assert(all.skip(0) =~= all);
    while i < sessions.len()
        invariant
            i <= sessions.len(),
            all == session_views(sessions@),
            first_sought(all.skip(i as int), lookup@, root@) == first_sought(all, lookup@, root@),
        decreases sessions.len() - i,
    {
        let session: &SessionInfo = &sessions[i];
        assert(all.skip(i as int)[0] == session@);
        assert(all.skip(i as int).drop_first() =~= all.skip(i + 1));
        let sought: bool = match lookup {
            SessionLookup::ByName(name) => same_text(session.name.as_str(), name.as_str()),
            SessionLookup::ByPath => same_text(session.path.as_str(), root),
        };
        if sought {
            return Some(
                SessionInfo { name: session.name.clone(), path: session.path.clone() },
            );
        }
        i += 1;
    }
    None
}

/// A text as it stands between single quotes of the shell: a single quote in it ends them, is
/// escaped by itself, and starts them again.
pub open spec fn escaped(text: Seq<char>) -> Seq<char>
    decreases text.len(),
{
    if text.len() == 0 {
        seq![]
    } else if text.last() == '\'' {
        escaped(text.drop_last()) + "'\\''"@
    } else {
        escaped(text.drop_last()).push(text.last())
    }
}

/// A text in single quotes, as the shell reads it.
pub open spec fn quoted(text: Seq<char>) -> Seq<char> {
    "'"@ + escaped(text) + "'"@
}

fn quote(text: &str) -> (r: String)
    ensures
        r@ == quoted(text@),
{
    let length: usize = text.unicode_len();
    let chars: Vec<char> = chars_of(text);
    let mut out: String = "'".to_string();
    let mut i: usize = 0;
    assert("'"@ + escaped(text@.take(0)) =~= "'"@);
    while i < length
        invariant
            i <= length,
            length == text@.len(),
            chars@ == text@,
            out@ == "'"@ + escaped(text@.take(i as int)),
        decreases length - i,
    {
        let ghost before = out@;
        let ghost now = text@.take(i + 1);
        assert(now.drop_last() =~= text@.take(i as int));
        assert(now.last() == text@[i as int]);
        if chars[i] == '\'' {
            out.append("'\\''");
            assert(out@ =~= "'"@ + escaped(now));
        } else {
            let next: usize = i + 1;
            out.append(text.substring_char(i, next));
            assert(text@.subrange(i as int, next as int) =~= seq![text@[i as int]]);
            assert(out@ =~= "'"@ + escaped(now));
        }
        i += 1;
    }
    assert(text@.take(i as int) =~= text@);
    out.append("'");
    out
}

/// The command that starts an editor with a file, at its line.
pub open spec fn editor_text(file: Seq<char>, line: Option<u32>) -> Seq<char> {
    match line {
        Some(n) => "nvim +"@ + decimal_of(n as nat) + " "@ + quoted(file),
        None => "nvim "@ + quoted(file),
    }
}

/// The command that starts an editor with a file, at its line.
pub fn editor_command(target: &MaterializedPath) -> (r: String)
    ensures
        r@ == editor_text(target.absolute@, target.line),
{
    let mut out: String = "nvim ".to_string();
    if let Some(line) = target.line {
        out = "nvim +".to_string();
        out.append(decimal(line as u64).as_str());
        out.append(" ");
    }
    out.append(quote(target.absolute.as_str()).as_str());
    out
}

/// The arguments that make a session with an editor in it.
pub fn spawn_arguments(name: &str, directory: &str, target: &MaterializedPath) -> (r: Vec<String>)
    ensures
        string_views(r@) == seq![
            "new-session"@,
            "-d"@,
            "-s"@,
            name@,
            "-c"@,
            directory@,
            editor_text(target.absolute@, target.line),
        ],
{
    let mut out: Vec<String> = Vec::new();
    push_text(&mut out, "new-session");
    push_text(&mut out, "-d");
    push_text(&mut out, "-s");
    push_text(&mut out, name);
    push_text(&mut out, "-c");
    push_text(&mut out, directory);
    push_text(&mut out, editor_command(target).as_str());
    assert(string_views(out@) =~= seq![
        "new-session"@,
        "-d"@,
        "-s"@,
        name@,
        "-c"@,
        directory@,
        editor_text(target.absolute@, target.line),
    ]);
    out
}

/// The arguments that open a window of a session with an editor in it.
pub fn window_arguments(session: &str, directory: &str, target: &MaterializedPath) -> (r: Vec<
    String,
>)
    ensures
        string_views(r@) == seq![
            "new-window"@,
            "-t"@,
            session@,
            "-c"@,
            directory@,
            editor_text(target.absolute@, target.line),
        ],
{
    let mut out: Vec<String> = Vec::new();
    push_text(&mut out, "new-window");
    push_text(&mut out, "-t");
    push_text(&mut out, session);
    push_text(&mut out, "-c");
    push_text(&mut out, directory);
    push_text(&mut out, editor_command(target).as_str());
    assert(string_views(out@) =~= seq![
        "new-window"@,
        "-t"@,
        session@,
        "-c"@,
        directory@,
        editor_text(target.absolute@, target.line),
    ]);
    out
}

/// The pane that a line of tmux describes, where an editor runs in it.
pub open spec fn pane_in(session: Seq<char>, line: Seq<char>) -> Option<PaneView> {
    let list = word_list(line);
    if list.len() < 4 || !has_text(list[3], "nvim"@) {
        None
    } else {
        match numeral_value(list[2]) {
            Some(pid) => if pid <= u32::MAX {
                Some(
                    PaneView { session, window: list[0], pane: list[1], nvim_pid: pid as u32 },
                )
            } else {
                None
            },
            None => None,
        }
    }
}

/// The first pane in which an editor runs.
pub open spec fn first_pane(session: Seq<char>, lines: Seq<Seq<char>>) -> Option<PaneView>
    decreases lines.len(),
{
    if lines.len() == 0 {
        None
    } else {
        match pane_in(session, lines[0]) {
            Some(pane) => Some(pane),
            None => first_pane(session, lines.drop_first()),
        }
    }
}

fn read_pane(session: &str, line: &str) -> (r: Option<NvimPaneInfo>)
    ensures
        match r {
            Some(pane) => pane_in(session@, line@) == Some(pane@),
            None => pane_in(session@, line@) is None,
        },
{
    let parts: Vec<&str> = words(line);
    proof {
        lemma_views(parts@);
    }
    if parts.len() < 4 || !contains(parts[3], "nvim") {
        return None;
    }
    match parse_usize(parts[2]) {
        Some(pid) => if pid <= u32::MAX as usize {
            Some(
                NvimPaneInfo {
                    session: session.to_string(),
                    window: parts[0].to_string(),
                    pane: parts[1].to_string(),
                    nvim_pid: pid as u32,
                },
            )
        } else {
            None
        },
        None => None,
    }
}

/// The first pane in a list of tmux in which an editor runs.
pub fn find_nvim_pane(session: &str, output: &str) -> (r: Option<NvimPaneInfo>)
    ensures
        match r {
            Some(pane) => first_pane(session@, line_list(output@)) == Some(pane@),
            None => first_pane(session@, line_list(output@)) is None,
        },
{
    let all: Vec<&str> = lines(output);
    let ghost list = views(all@);
    let mut i: usize = 0;
    assert(list.skip(0) =~= list);
    while i < all.len()
        invariant
            i <= all.len(),
            list == views(all@),
            list == line_list(output@),
            first_pane(session@, list.skip(i as int)) == first_pane(session@, list),
        decreases all.len() - i,
    {
        assert(list.skip(i as int)[0] == all@[i as int]@);
        assert(list.skip(i as int).drop_first() =~= list.skip(i + 1));
        if let Some(pane) = read_pane(session, all[i]) {
            return Some(pane);
        }
        i += 1;
    }
    None
}

/// The sessions of a list come in the order of its lines.
pub proof fn lemma_sessions_come_in_order(before: Seq<Seq<char>>, after: Seq<Seq<char>>)
    ensures
        sessions_in(before + after) == sessions_in(before) + sessions_in(after),
    decreases after.len(),
{
    if after.len() == 0 {
        assert(before + after =~= before);
        assert(sessions_in(before) + sessions_in(after) =~= sessions_in(before));
    } else {
        let whole = before + after;
        assert(whole.last() == after.last());
        assert(whole.drop_last() =~= before + after.drop_last());
        lemma_sessions_come_in_order(before, after.drop_last());
        if let Some(path) = after_char(after.last(), ' ') {
            let session = SessionView { name: before_char(after.last(), ' '), path };
            assert((sessions_in(before) + sessions_in(after.drop_last())).push(session)
                =~= sessions_in(before) + sessions_in(after.drop_last()).push(session));
        }
    }
}

/// A line names a session by what precedes its first space, and its path by what follows; a line
/// without a space names none.
pub proof fn lemma_lines_name_sessions(name: Seq<char>, path: Seq<char>)
    requires
        !name.contains(' '),
    ensures
        sessions_in(seq![name + seq![' '] + path]) == seq![SessionView { name, path }],
        sessions_in(seq![name]) == Seq::<SessionView>::empty(),
        SESSION_FORMAT@ == "#{session_name} #{session_path}"@,
{
    let line = name + seq![' '] + path;
    lemma_split_at_char(name, ' ', path);
    lemma_char_position_facts(name, ' ');
    reveal_with_fuel(sessions_in, 2);
    assert(seq![line].drop_last() =~= Seq::<Seq<char>>::empty());
    assert(seq![name].drop_last() =~= Seq::<Seq<char>>::empty());
    assert(sessions_in(Seq::<Seq<char>>::empty()) =~= Seq::<SessionView>::empty());
    assert(sessions_in(seq![line]) =~= seq![SessionView { name, path }]);
}

/// The session that is found is the first that is what is looked for: by its name, or by the path of
/// the project.
pub proof fn lemma_first_session_is_found(
    sessions: Seq<SessionView>,
    lookup: LookupView,
    root: Seq<char>,
    k: int,
)
    requires
        0 <= k <= sessions.len(),
        forall|i: int|
            0 <= i < k ==> match lookup {
                LookupView::ByName(name) => (#[trigger] sessions[i]).name != name,
                LookupView::ByPath => sessions[i].path != root,
            },
        k < sessions.len() ==> match lookup {
            LookupView::ByName(name) => sessions[k].name == name,
            LookupView::ByPath => sessions[k].path == root,
        },
    ensures
        first_sought(sessions, lookup, root) == if k < sessions.len() {
            Some(sessions[k])
        } else {
            None
        },
    decreases k,
{
    if k > 0 {
        let rest = sessions.drop_first();
        assert(!is_sought(sessions[0], lookup, root));
        assert forall|i: int| 0 <= i < k - 1 implies match lookup {
            LookupView::ByName(name) => (#[trigger] rest[i]).name != name,
            LookupView::ByPath => rest[i].path != root,
        } by {
            assert(rest[i] == sessions[i + 1]);
        }
        lemma_first_session_is_found(rest, lookup, root, k - 1);
    }
}

/// A text is escaped character by character: a single quote becomes one that ends the quotes, one
/// that is escaped, and one that starts them again, and everything else stays as it is.
pub proof fn lemma_quotes_are_escaped(before: Seq<char>, after: Seq<char>, c: char)
    ensures
        escaped(before + after) == escaped(before) + escaped(after),
        escaped(seq![c]) == if c == '\'' {
            "'\\''"@
        } else {
            seq![c]
        },
        !before.contains('\'') ==> escaped(before) == before,
    decreases before.len() + after.len(),
{
    reveal_with_fuel(escaped, 2);
    assert(seq![c].drop_last() =~= Seq::<char>::empty());
    assert(escaped(Seq::<char>::empty()) =~= Seq::<char>::empty());
    assert(escaped(seq![c]) =~= if c == '\'' {
        "'\\''"@
    } else {
        seq![c]
    });
    if after.len() == 0 {
        assert(before + after =~= before);
        assert(escaped(before) + escaped(after) =~= escaped(before));
    } else {
        let whole = before + after;
        lemma_quotes_are_escaped(before, after.drop_last(), c);
        assert(whole.drop_last() =~= before + after.drop_last());
        assert(whole.last() == after.last());
        assert(escaped(whole) =~= escaped(before) + escaped(after));
    }
    if before.len() > 0 && !before.contains('\'') {
        let front = before.drop_last();
        assert(before.contains(before.last()));
        assert forall|i: int| 0 <= i < front.len() implies front[i] != '\'' by {
            assert(before.contains(before[i]));
        }
        if after.len() == 0 {
            lemma_quotes_are_escaped(front, Seq::empty(), c);
        } else {
            lemma_quotes_are_escaped(before, after.drop_last(), c);
        }
        assert(escaped(before) =~= before);
    } else if before.len() == 0 {
        assert(escaped(before) =~= before);
    }
}

/// The command of an editor names the file in quotes, and the line before it where there is one.
pub proof fn lemma_editors_are_started_with_their_files(file: Seq<char>, line: u32)
    ensures
        editor_text(file, None) == "nvim '"@ + escaped(file) + "'"@,
        editor_text(file, Some(line)) == "nvim +"@ + decimal_of(line as nat) + " '"@ + escaped(file)
            + "'"@,
{
    reveal_strlit("nvim '");
    reveal_strlit("nvim ");
    reveal_strlit("'");
    reveal_strlit(" '");
    reveal_strlit(" ");
    assert("nvim '"@ =~= "nvim "@ + "'"@);
    assert(" '"@ =~= " "@ + "'"@);
    assert(editor_text(file, None) =~= "nvim '"@ + escaped(file) + "'"@);
    assert(editor_text(file, Some(line)) =~= "nvim +"@ + decimal_of(line as nat) + " '"@ + escaped(
        file,
    ) + "'"@);
}

/// A line describes a pane by the first words: its window, its place there, its process and its
/// command, which has to be an editor.
pub proof fn lemma_lines_describe_panes(session: Seq<char>, line: Seq<char>, pid: u32)
    ensures
        word_list(line).len() >= 4 && has_text(word_list(line)[3], "nvim"@) && numeral_value(
            word_list(line)[2],
        ) == Some(pid as nat) ==> pane_in(session, line) == Some(
            PaneView {
                session,
                window: word_list(line)[0],
                pane: word_list(line)[1],
                nvim_pid: pid,
            },
        ),
        word_list(line).len() < 4 ==> pane_in(session, line) is None,
        word_list(line).len() >= 4 && !has_text(word_list(line)[3], "nvim"@) ==> pane_in(
            session,
            line,
        ) is None,
        word_list(line).len() >= 4 && numeral_value(word_list(line)[2]) is None ==> pane_in(
            session,
            line,
        ) is None,
        PANE_FORMAT@ == "#{window_index} #{pane_index} #{pane_pid} #{pane_current_command}"@,
        pane_in(session, line) matches Some(pane) ==> pane.session == session && numeral_value(
            word_list(line)[2],
        ) == Some(pane.nvim_pid as nat),
{
}

/// The pane that is found is the first in which an editor runs.
pub proof fn lemma_first_pane_is_found(session: Seq<char>, lines: Seq<Seq<char>>, k: int)
    requires
        0 <= k <= lines.len(),
        forall|i: int| 0 <= i < k ==> pane_in(session, #[trigger] lines[i]) is None,
        k < lines.len() ==> pane_in(session, lines[k]) is Some,
    ensures
        first_pane(session, lines) == if k < lines.len() {
            pane_in(session, lines[k])
        } else {
            None
        },
    decreases k,
{
    if k > 0 {
        let rest = lines.drop_first();
        assert(pane_in(session, lines[0]) is None);
        assert forall|i: int| 0 <= i < k - 1 implies pane_in(session, #[trigger] rest[i]) is None by {
            assert(rest[i] == lines[i + 1]);
        }
        lemma_first_pane_is_found(session, rest, k - 1);
    }
}

} // verus!
