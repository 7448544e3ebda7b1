//! Whether the tools are there that a jump needs, and how that is told.

use vstd::prelude::*;
use vstd::string::*;
use vstd::utf8::*;

use crate::text::{
    decimal, decimal_of, has_text, lemma_line_ends_in_a_feed, lemma_texts_stand_in_others,
    lemma_trimmed_blank, line_list, lines, occurs_at, trim, trimmed, views,
};

verus! {

/// The codes by which a terminal switches colours and weights.
pub const GREEN: &'static str = "\x1b[32m";

pub const RED: &'static str = "\x1b[31m";

pub const BOLD: &'static str = "\x1b[1m";

pub const DIM: &'static str = "\x1b[2m";

pub const RESET: &'static str = "\x1b[0m";

/// A tool, and how to find out whether it is there.
pub struct Check {
    pub name: &'static str,
    pub cmd: &'static str,
    pub args: Vec<&'static str>,
    pub required: bool,
    pub check_exists_only: bool,
}

/// What a [`Check`] says.
pub struct CheckView {
    pub name: Seq<char>,
    pub cmd: Seq<char>,
    pub args: Seq<Seq<char>>,
    pub required: bool,
    pub check_exists_only: bool,
}

impl Check {
    /// What the check says.
    pub open spec fn view(self) -> CheckView {
        CheckView {
            name: self.name@,
            cmd: self.cmd@,
            args: views(self.args@),
            required: self.required,
            check_exists_only: self.check_exists_only,
        }
    }
}

/// A tool that is called by its own name.
pub open spec fn tool(
    name: Seq<char>,
    args: Seq<Seq<char>>,
    required: bool,
    check_exists_only: bool,
) -> CheckView {
    CheckView { name, cmd: name, args, required, check_exists_only }
}

/// The tools that a jump needs.
pub open spec fn needed_tools() -> Seq<CheckView> {
    seq![
        tool("tmux"@, seq!["-V"@], true, false),
        tool("nvim"@, seq!["--version"@], true, false),
        tool("nvr"@, seq!["--help"@], true, true),
        tool("git"@, seq!["--version"@], true, false),
        tool("hyprctl"@, seq!["version"@], false, false),
        tool("pstree"@, seq!["-p"@, "1"@], true, true),
    ]
}

/// What a list of checks says.
pub open spec fn check_views(checks: Seq<Check>) -> Seq<CheckView> {
    checks.map_values(|check: Check| check@)
}

fn check(
    name: &'static str,
    args: Vec<&'static str>,
    required: bool,
    check_exists_only: bool,
) -> (r: Check)
    ensures
        r@ == tool(name@, views(args@), required, check_exists_only),
{
    Check { name, cmd: name, args, required, check_exists_only }
}

/// The tools that a jump needs.
pub fn checks() -> (r: Vec<Check>)
    ensures
        check_views(r@) == needed_tools(),
{
    let mut all: Vec<Check> = Vec::new();
    all.push(check("tmux", vec!["-V"], true, false));
    all.push(check("nvim", vec!["--version"], true, false));
    all.push(check("nvr", vec!["--help"], true, true));
    all.push(check("git", vec!["--version"], true, false));
    all.push(check("hyprctl", vec!["version"], false, false));
    all.push(check("pstree", vec!["-p", "1"], true, true));
    assert(views(all@[0].args@) =~= seq!["-V"@]);
    assert(views(all@[1].args@) =~= seq!["--version"@]);
    assert(views(all@[2].args@) =~= seq!["--help"@]);
    assert(views(all@[3].args@) =~= seq!["--version"@]);
    assert(views(all@[4].args@) =~= seq!["version"@]);
    assert(views(all@[5].args@) =~= seq!["-p"@, "1"@]);
    assert(check_views(all@) =~= needed_tools());
    all
}

/// How a tool was called.
pub enum ToolRun {
    /// It came to an end, and wrote this.
    Ended { success: bool, stdout: String, stderr: String },
    /// It could not be called.
    Missing,
}

/// A tool with what was found out about it.
pub struct ToolResult {
    pub name: &'static str,
    pub found: bool,
    pub version: String,
    pub required: bool,
}

/// The first line of a text, without the spaces around it.
pub open spec fn first_line(text: Seq<char>) -> Seq<char> {
    let lines = line_list(text);
    if lines.len() > 0 {
        trimmed(lines[0])
    } else {
        seq![]
    }
}

/// Whether a tool is there, and its version, or what is wrong with it.
pub open spec fn judgement(check_exists_only: bool, run: ToolRun) -> (bool, Seq<char>) {
    match run {
        ToolRun::Missing => (false, "not found"@),
        ToolRun::Ended { success, stdout, stderr } => if check_exists_only {
            (true, "ok"@)
        } else if success {
            (true, first_line(stdout@))
        } else if first_line(stderr@).len() > 0 {
            (true, first_line(stderr@))
        } else {
            (false, "installed but failed"@)
        },
    }
}

fn read_first_line(text: &str) -> (r: String)
    ensures
        r@ == first_line(text@),
{
    let all: Vec<&str> = lines(text);
    if all.len() == 0 {
        return String::new();
    }
    trim(all[0]).to_string()
}

/// What a call of a tool says about it.
pub fn judge(check: &Check, run: &ToolRun) -> (r: ToolResult)
    ensures
        r.name == check.name,
        r.required == check.required,
        (r.found, r.version@) == judgement(check.check_exists_only, *run),
{
    let (found, version): (bool, String) = match run {
        ToolRun::Missing => (false, "not found".to_string()),
        ToolRun::Ended { success, stdout, stderr } => if check.check_exists_only {
            (true, "ok".to_string())
        } else if *success {
            (true, read_first_line(stdout.as_str()))
        } else {
            let said: String = read_first_line(stderr.as_str());
            if said.as_str().is_empty() {
                (false, "installed but failed".to_string())
            } else {
                (true, said)
            }
        },
    };
    ToolResult { name: check.name, found, version, required: check.required }
}

/// Every tool that is required is there.
pub open spec fn tools_suffice(results: Seq<ToolResult>) -> bool {
    forall|i: int|
        0 <= i < results.len() && (#[trigger] results[i]).required ==> results[i].found
}

/// Whether every tool that is required is there.
pub fn all_ok(results: &Vec<ToolResult>) -> (r: bool)
    ensures
        r == tools_suffice(results@),
{
    let mut i: usize = 0;
    while i < results.len()
        invariant
            i <= results.len(),
            forall|j: int|
                0 <= j < i && (#[trigger] results@[j]).required ==> results@[j].found,
        decreases results.len() - i,
    {
        if results[i].required && !results[i].found {
            return false;
        }
        i += 1;
    }
    true
}

/// A version of more than fifty bytes can be cut behind the forty-seventh.
pub open spec fn can_be_cut(version: Seq<char>) -> bool {
    encode_utf8(version).len() > 50 ==> is_char_boundary(encode_utf8(version), 47)
}

/// The version as it is shown: one of more than fifty bytes is cut.
pub open spec fn shown_version(version: Seq<char>) -> Seq<char> {
    if encode_utf8(version).len() > 50 {
        decode_utf8(encode_utf8(version).subrange(0, 47)) + "..."@
    } else {
        version
    }
}

/// Whether a version of more than fifty bytes can be cut behind the forty-seventh.
pub fn is_cuttable(version: &str) -> (r: bool)
    ensures
        r == can_be_cut(version@),
{
    version.as_bytes().len() <= 50 || version.is_char_boundary(47)
}

/// The version as it is shown: one of more than fifty bytes is cut.
pub fn version_display(version: &str) -> (r: String)
    requires
        can_be_cut(version@),
    ensures
        r@ == shown_version(version@),
{
    if version.as_bytes().len() > 50 {
        let kept: &str = version.split_at(47).0;
        proof {
            encode_utf8_decode_utf8(kept@);
        }
        let mut out: String = kept.to_string();
        out.append("...");
        out
    } else {
        version.to_string()
    }
}

/// A text in a colour or a weight.
pub open spec fn styled(style: Seq<char>, text: Seq<char>) -> Seq<char> {
    style + text + RESET@
}

/// A name with spaces behind it, up to a width.
pub open spec fn padded(name: Seq<char>, width: nat) -> Seq<char> {
    if name.len() >= width {
        name
    } else {
        name + Seq::new((width - name.len()) as nat, |i: int| ' ')
    }
}

fn paint(style: &str, text: &str) -> (r: String)
    ensures
        r@ == styled(style@, text@),
{
    let mut out: String = style.to_string();
    out.append(text);
    out.append(RESET);
    out
}

fn pad(name: &str, width: usize) -> (r: String)
    ensures
        r@ == padded(name@, width as nat),
{
    proof {
        reveal_strlit(" ");
        assert(" "@ =~= seq![' ']);
    }
    let mut out: String = name.to_string();
    let mut length: usize = name.unicode_len();
    while length < width
        invariant
            length == out@.len(),
            out@ == padded(name@, length as nat),
            name@.len() <= length,
            length <= width || length == name@.len(),
            " "@ == seq![' '],
        decreases width - length,
    {
        out.append(" ");
        length += 1;
        assert(out@ =~= padded(name@, length as nat));
    }
    out
}

/// The mark of a tool.
pub open spec fn tool_mark(found: bool) -> Seq<char> {
    if found {
        styled(GREEN@, "\u{2713}"@)
    } else {
        styled(RED@, "\u{2717}"@)
    }
}

/// Whether a tool is required, as it is shown.
pub open spec fn need(required: bool) -> Seq<char> {
    if required {
        "(required)"@
    } else {
        styled(DIM@, "(optional)"@)
    }
}

/// The line of the report on a tool.
pub open spec fn tool_text(result: ToolResult) -> Seq<char> {
    "  "@ + tool_mark(result.found) + " "@ + padded(result.name@, 10) + " "@ + need(result.required)
        + " "@ + styled(DIM@, shown_version(result.version@)) + "\n"@
}

/// The lines of the report on tools.
pub open spec fn tool_texts(results: Seq<ToolResult>) -> Seq<char>
    decreases results.len(),
{
    if results.len() == 0 {
        seq![]
    } else {
        tool_texts(results.drop_last()) + tool_text(results.last())
    }
}

fn push_tool(out: &mut String, result: &ToolResult)
    requires
        can_be_cut(result.version@),
    ensures
        final(out)@ == old(out)@ + tool_text(*result),
{
    let ghost before = out@;
    let mark: String = if result.found {
        paint(GREEN, "\u{2713}")
    } else {
        paint(RED, "\u{2717}")
    };
    let need: String = if result.required {
        "(required)".to_string()
    } else {
        paint(DIM, "(optional)")
    };
    out.append("  ");
    out.append(mark.as_str());
    out.append(" ");
    out.append(pad(result.name, 10).as_str());
    out.append(" ");
    out.append(need.as_str());
    out.append(" ");
    out.append(paint(DIM, version_display(result.version.as_str()).as_str()).as_str());
    out.append("\n");
    assert(out@ =~= before + tool_text(*result));
}

/// What was found out about the system.
pub struct SystemReport {
    pub tools: Vec<ToolResult>,
    /// How many sessions tmux has, where its server runs.
    pub tmux_sessions: Option<u64>,
    /// Whether Hyprland runs.
    pub hyprland: bool,
    pub log_path: String,
    pub log_exists: bool,
}

/// How many sessions a list of tmux names, where its server runs.
pub open spec fn session_count(run: ToolRun) -> Option<nat> {
    match run {
        ToolRun::Ended { success: true, stdout, .. } => Some(line_list(stdout@).len()),
        _ => None,
    }
}

/// How many sessions a list of tmux names, where its server runs.
pub fn tmux_sessions(run: &ToolRun) -> (r: Option<u64>)
    ensures
        match r {
            Some(count) => session_count(*run) == Some(count as nat),
            None => session_count(*run) is None,
        },
{
    match run {
        ToolRun::Ended { success, stdout, .. } => if *success {
            let all: Vec<&str> = lines(stdout.as_str());
            assert(views(all@).len() == all@.len());
            Some(all.len() as u64)
        } else {
            None
        },
        ToolRun::Missing => None,
    }
}

/// Whether a call of `hyprctl` says that Hyprland runs.
pub fn hyprland_active(run: &ToolRun) -> (r: bool)
    ensures
        r == (*run matches ToolRun::Ended { success, .. } && success),
{
    match run {
        ToolRun::Ended { success, .. } => *success,
        ToolRun::Missing => false,
    }
}

/// What the report says about the server of tmux.
pub open spec fn tmux_text(sessions: Option<u64>) -> Seq<char> {
    match sessions {
        Some(count) => styled(GREEN@, "\u{2713}"@) + " "@ + decimal_of(count as nat) + " sessions"@,
        None => styled(RED@, "\u{2717}"@) + " not running"@,
    }
}

/// What the report says about Hyprland.
pub open spec fn hyprland_text(active: bool) -> Seq<char> {
    if active {
        styled(GREEN@, "\u{2713}"@) + " active"@
    } else {
        styled(DIM@, "-"@) + " not running"@
    }
}

/// What the report says about the log.
pub open spec fn log_text(path: Seq<char>, exists: bool) -> Seq<char> {
    (if exists {
        styled(GREEN@, "\u{2713}"@)
    } else {
        styled(DIM@, "-"@)
    }) + " "@ + styled(DIM@, path)
}

/// What the report comes to.
pub open spec fn verdict_text(ok: bool) -> Seq<char> {
    if ok {
        styled(BOLD@ + GREEN@, "All required tools are available."@)
    } else {
        styled(BOLD@ + RED@, "Some required tools are missing."@)
    }
}

/// The report on the system.
pub open spec fn report_text(report: SystemReport) -> Seq<char> {
    let head = styled(BOLD@, "Jump System Verification"@) + "\n========================\n\n"@;
    let tools = styled(BOLD@, "Tools:"@) + "\n"@ + tool_texts(report.tools@);
    let services = "\n"@ + styled(BOLD@, "Services:"@) + "\n  tmux server:  "@ + tmux_text(
        report.tmux_sessions,
    ) + "\n  hyprland:     "@ + hyprland_text(report.hyprland) + "\n"@;
    let log = "\n"@ + styled(BOLD@, "Log file:"@) + "\n  "@ + log_text(
        report.log_path@,
        report.log_exists,
    ) + "\n\n"@;
    head + tools + services + log + verdict_text(tools_suffice(report.tools@)) + "\n"@
}

fn tmux_status(sessions: Option<u64>) -> (r: String)
    ensures
        r@ == tmux_text(sessions),
{
    match sessions {
        Some(count) => {
            let mut out: String = paint(GREEN, "\u{2713}");
            out.append(" ");
            out.append(decimal(count).as_str());
            out.append(" sessions");
            out
        },
        None => {
            let mut out: String = paint(RED, "\u{2717}");
            out.append(" not running");
            out
        },
    }
}

fn hyprland_status(active: bool) -> (r: String)
    ensures
        r@ == hyprland_text(active),
{
    if active {
        let mut out: String = paint(GREEN, "\u{2713}");
        out.append(" active");
        out
    } else {
        let mut out: String = paint(DIM, "-");
        out.append(" not running");
        out
    }
}

fn log_status(path: &str, exists: bool) -> (r: String)
    ensures
        r@ == log_text(path@, exists),
{
    let mut out: String = if exists {
        paint(GREEN, "\u{2713}")
    } else {
        paint(DIM, "-")
    };
    out.append(" ");
    out.append(paint(DIM, path).as_str());
    out
}

fn verdict(ok: bool) -> (r: String)
    ensures
        r@ == verdict_text(ok),
{
    let mut style: String = BOLD.to_string();
    if ok {
        style.append(GREEN);
        paint(style.as_str(), "All required tools are available.")
    } else {
        style.append(RED);
        paint(style.as_str(), "Some required tools are missing.")
    }
}

fn tool_lines(results: &Vec<ToolResult>) -> (r: String)
    requires
        forall|i: int| 0 <= i < results@.len() ==> can_be_cut(#[trigger] results@[i].version@),
    ensures
        r@ == tool_texts(results@),
{
    let mut out: String = String::new();
    let mut i: usize = 0;
    while i < results.len()
        invariant
            i <= results.len(),
            forall|j: int| 0 <= j < results@.len() ==> can_be_cut(#[trigger] results@[j].version@),
            out@ == tool_texts(results@.take(i as int)),
        decreases results.len() - i,
    {
        push_tool(&mut out, &results[i]);
        assert(results@.take(i + 1).drop_last() =~= results@.take(i as int));
        i += 1;
    }
    assert(results@.take(i as int) =~= results@);
    out
}

/// The report on the system, and whether the tools that are required are there.
pub fn verify_system(report: &SystemReport) -> (r: (String, bool))
    requires
        forall|i: int|
            0 <= i < report.tools@.len() ==> can_be_cut(#[trigger] report.tools@[i].version@),
    ensures
        r.0@ == report_text(*report),
        r.1 == tools_suffice(report.tools@),
{
    let ok: bool = all_ok(&report.tools);
    let mut head: String = paint(BOLD, "Jump System Verification");
    head.append("\n========================\n\n");
    let mut tools: String = paint(BOLD, "Tools:");
    tools.append("\n");
    tools.append(tool_lines(&report.tools).as_str());
    let mut services: String = "\n".to_string();
    services.append(paint(BOLD, "Services:").as_str());
    services.append("\n  tmux server:  ");
    services.append(tmux_status(report.tmux_sessions).as_str());
    services.append("\n  hyprland:     ");
    services.append(hyprland_status(report.hyprland).as_str());
    services.append("\n");
    let mut log: String = "\n".to_string();
    log.append(paint(BOLD, "Log file:").as_str());
    log.append("\n  ");
    log.append(log_status(report.log_path.as_str(), report.log_exists).as_str());
    log.append("\n\n");
    let mut out: String = head;
    out.append(tools.as_str());
    out.append(services.as_str());
    out.append(log.as_str());
    out.append(verdict(ok).as_str());
    out.append("\n");
    (out, ok)
}

/// A tool that is optional does not change whether the tools suffice.
pub proof fn lemma_optional_tools_do_not_matter(
    before: Seq<ToolResult>,
    optional: ToolResult,
    after: Seq<ToolResult>,
)
    requires
        !optional.required,
    ensures
        tools_suffice(before + seq![optional] + after) == tools_suffice(before + after),
{
    let with = before + seq![optional] + after;
    let without = before + after;
    let n = before.len() as int;
    if tools_suffice(with) {
        assert forall|i: int|
            0 <= i < without.len() && (#[trigger] without[i]).required implies without[i].found by {
            let at = if i < n {
                i
            } else {
                i + 1
            };
            assert(with[at] == without[i]);
        }
    }
    if tools_suffice(without) {
        assert forall|i: int|
            0 <= i < with.len() && (#[trigger] with[i]).required implies with[i].found by {
            if i != n {
                let at = if i < n {
                    i
                } else {
                    i - 1
                };
                assert(without[at] == with[i]);
            }
        }
    }
}

/// A version takes at most fifty bytes where it is shown.
pub proof fn lemma_versions_are_short(version: Seq<char>)
    requires
        can_be_cut(version),
    ensures
        encode_utf8(shown_version(version)).len() <= 50,
{
    let bytes = encode_utf8(version);
    if bytes.len() > 50 {
        let kept = bytes.subrange(0, 47);
        encode_utf8_valid_utf8(version);
        valid_utf8_split(bytes, 47);
        decode_utf8_encode_utf8(kept);
        lemma_encode_joined(decode_utf8(kept), "..."@);
        reveal_strlit("...");
        is_ascii_chars_encode_utf8("..."@);
    }
}

proof fn lemma_encode_joined(a: Seq<char>, b: Seq<char>)
    ensures
        encode_utf8(a + b) == encode_utf8(a) + encode_utf8(b),
    decreases a.len(),
{
    if a.len() == 0 {
        assert(a + b =~= b);
        assert(encode_utf8(a) + encode_utf8(b) =~= encode_utf8(b));
    } else {
        lemma_encode_joined(a.drop_first(), b);
        assert((a + b).drop_first() =~= a.drop_first() + b);
        assert(encode_utf8(a + b) =~= encode_utf8(a) + encode_utf8(b));
    }
}

/// Every tool is called by its own name, and asked for its version where it has one. All are required
/// but `hyprctl`, and of `nvr` and `pstree` it counts only that they can be called.
pub proof fn lemma_needed_tools(i: int)
    requires
        0 <= i < needed_tools().len(),
    ensures
        needed_tools().len() == 6,
        needed_tools()[i].cmd == needed_tools()[i].name,
        needed_tools()[i].required <==> needed_tools()[i].name != "hyprctl"@,
        needed_tools()[i].check_exists_only <==> needed_tools()[i].name == "nvr"@
            || needed_tools()[i].name == "pstree"@,
        needed_tools()[i].name == seq!["tmux"@, "nvim"@, "nvr"@, "git"@, "hyprctl"@, "pstree"@][i],
        needed_tools()[i].args == seq![
            seq!["-V"@],
            seq!["--version"@],
            seq!["--help"@],
            seq!["--version"@],
            seq!["version"@],
            seq!["-p"@, "1"@],
        ][i],
{
    reveal_strlit("tmux");
    reveal_strlit("nvim");
    reveal_strlit("nvr");
    reveal_strlit("git");
    reveal_strlit("hyprctl");
    reveal_strlit("pstree");
    assert("tmux"@.len() == 4 && "nvim"@.len() == 4);
    assert("nvr"@.len() == 3 && "git"@.len() == 3);
    assert("hyprctl"@.len() == 7 && "pstree"@.len() == 6);
    assert("nvr"@[0] == 'n' && "git"@[0] == 'g');
}

/// The first line of a text is what precedes its first line ending, without the white space around
/// it; an empty text has none.
pub proof fn lemma_first_lines(line: Seq<char>, rest: Seq<char>)
    requires
        !line.contains('\n'),
    ensures
        line.len() == 0 || line.last() != '\r' ==> first_line(line + seq!['\n'] + rest) == trimmed(
            line,
        ),
        first_line(line) == trimmed(line),
{
    lemma_line_ends_in_a_feed(line, rest);
    if line.len() == 0 {
        lemma_trimmed_blank(line);
        assert(line =~= Seq::<char>::empty());
    }
}

/// A tool that cannot be called is not found. Of one that can, it may be enough that it is there;
/// else it shows its version by the first line that it writes, or, where it fails, by the first line
/// of its errors, and one that says nothing there has failed.
pub proof fn lemma_tools_are_judged_by_their_calls(
    check_exists_only: bool,
    success: bool,
    stdout: String,
    stderr: String,
)
    ensures
        judgement(check_exists_only, ToolRun::Missing) == (false, "not found"@),
        ({
            let run = ToolRun::Ended { success, stdout, stderr };
            &&& check_exists_only ==> judgement(check_exists_only, run) == (true, "ok"@)
            &&& !check_exists_only && success ==> judgement(check_exists_only, run) == (
                true,
                first_line(stdout@),
            )
            &&& !check_exists_only && !success && first_line(stderr@).len() > 0 ==> judgement(
                check_exists_only,
                run,
            ) == (true, first_line(stderr@))
            &&& !check_exists_only && !success && first_line(stderr@).len() == 0 ==> judgement(
                check_exists_only,
                run,
            ) == (false, "installed but failed"@)
        }),
{
}

/// A version of at most fifty bytes is shown whole; of a longer one the first forty-seven bytes are
/// shown, and three dots.
pub proof fn lemma_versions_are_shown(version: Seq<char>)
    requires
        can_be_cut(version),
    ensures
        encode_utf8(version).len() <= 50 ==> shown_version(version) == version,
        encode_utf8(version).len() > 50 ==> exists|kept: Seq<char>|
            {
                &&& shown_version(version) == #[trigger] (kept + "..."@)
                &&& encode_utf8(kept) == encode_utf8(version).subrange(0, 47)
            },
{
    let bytes = encode_utf8(version);
    if bytes.len() > 50 {
        let kept = bytes.subrange(0, 47);
        encode_utf8_valid_utf8(version);
        valid_utf8_split(bytes, 47);
        decode_utf8_encode_utf8(kept);
        assert(shown_version(version) == decode_utf8(kept) + "..."@);
    }
}

/// A required tool that is missing makes the tools insufficient, and nothing else does.
pub proof fn lemma_missing_tools_are_decisive(results: Seq<ToolResult>, i: int)
    ensures
        0 <= i < results.len() && results[i].required && !results[i].found ==> !tools_suffice(
            results,
        ),
        !tools_suffice(results) ==> exists|j: int|
            0 <= j < results.len() && (#[trigger] results[j]).required && !results[j].found,
{
}

/// The lines of the report on tools come in the order of the tools.
pub proof fn lemma_tools_are_told_in_order(before: Seq<ToolResult>, after: Seq<ToolResult>)
    ensures
        tool_texts(before + after) == tool_texts(before) + tool_texts(after),
    decreases after.len(),
{
    if after.len() == 0 {
        assert(before + after =~= before);
        assert(tool_texts(before) + tool_texts(after) =~= tool_texts(before));
    } else {
        let whole = before + after;
        lemma_tools_are_told_in_order(before, after.drop_last());
        assert(whole.drop_last() =~= before + after.drop_last());
        assert(whole.last() == after.last());
        assert(tool_texts(whole) =~= tool_texts(before) + tool_texts(after));
    }
}

/// A name fills a column up to its width, with spaces behind it; a longer one is not cut.
pub proof fn lemma_names_fill_their_columns(name: Seq<char>, width: nat)
    ensures
        padded(name, width).len() == if name.len() < width {
            width
        } else {
            name.len()
        },
        padded(name, width).take(name.len() as int) == name,
        forall|i: int| name.len() <= i < padded(name, width).len() ==> padded(name, width)[i] == ' ',
{
    assert(padded(name, width).take(name.len() as int) =~= name);
}

/// The line on a tool: a green mark where it is there and a red one where it is not, its name in a
/// column, whether it is required, and its version.
pub proof fn lemma_lines_on_tools(result: ToolResult)
    ensures
        ({
            let mark = if result.found {
                GREEN@ + "\u{2713}"@ + RESET@
            } else {
                RED@ + "\u{2717}"@ + RESET@
            };
            let need = if result.required {
                "(required)"@
            } else {
                DIM@ + "(optional)"@ + RESET@
            };
            &&& GREEN@ == "\x1b[32m"@
            &&& RED@ == "\x1b[31m"@
            &&& BOLD@ == "\x1b[1m"@
            &&& DIM@ == "\x1b[2m"@
            &&& RESET@ == "\x1b[0m"@
            &&& tool_text(result) == "  "@ + mark + " "@ + padded(result.name@, 10) + " "@ + need + " "@
                + (DIM@ + shown_version(result.version@) + RESET@) + "\n"@
        }),
{
}

/// Parts that stand in the middle of a row of parts.
proof fn lemma_parts_of_rows(
    a: Seq<char>,
    b: Seq<char>,
    c: Seq<char>,
    d: Seq<char>,
    e: Seq<char>,
)
    ensures
        has_text(a + b + c + d + e, b),
        has_text(a + b + c + d + e, c),
        has_text(a + b + c + d + e, d),
{
    let whole = a + b + c + d + e;
    assert(whole =~= a + b + (c + d + e));
    lemma_texts_stand_in_others(a, b, c + d + e);
    assert(whole =~= (a + b) + c + (d + e));
    lemma_texts_stand_in_others(a + b, c, d + e);
    lemma_texts_stand_in_others(a + b + c, d, e);
}

/// What stands in a part of a text stands in the text.
proof fn lemma_parts_of_parts(whole: Seq<char>, part: Seq<char>, inner: Seq<char>)
    requires
        has_text(whole, part),
        has_text(part, inner),
    ensures
        has_text(whole, inner),
{
    let outer = choose|at: int| occurs_at(whole, part, at);
    let within = choose|at: int| occurs_at(part, inner, at);
    let at = outer + within;
    assert(whole.subrange(at, at + inner.len()) =~= part.subrange(within, within + inner.len()));
    assert(occurs_at(whole, inner, at));
}

/// The report tells every tool.
pub proof fn lemma_reports_tell_every_tool(report: SystemReport, i: int)
    requires
        0 <= i < report.tools@.len(),
    ensures
        has_text(report_text(report), tool_text(report.tools@[i])),
{
    let all = report.tools@;
    let before = all.take(i);
    let after = all.skip(i + 1);
    let result = all[i];
    assert(all =~= before + (seq![result] + after));
    lemma_tools_are_told_in_order(before, seq![result] + after);
    lemma_tools_are_told_in_order(seq![result], after);
    assert(tool_texts(seq![result]) =~= tool_text(result)) by {
        reveal_with_fuel(tool_texts, 2);
        assert(seq![result].drop_last() =~= Seq::<ToolResult>::empty());
        assert(tool_texts(Seq::<ToolResult>::empty()) =~= Seq::<char>::empty());
    }
    let lines = tool_texts(all);
    assert(lines =~= tool_texts(before) + tool_text(result) + tool_texts(after));
    lemma_texts_stand_in_others(tool_texts(before), tool_text(result), tool_texts(after));
    lemma_report_holds_its_parts(report);
    lemma_parts_of_parts(report_text(report), lines, tool_text(result));
}

/// The lines on tools, the lines on services, the line on the log and the verdict stand in a report,
/// the verdict at its end.
proof fn lemma_report_holds_its_parts(report: SystemReport)
    ensures
        has_text(report_text(report), tool_texts(report.tools@)),
        has_text(
            report_text(report),
            "\n"@ + styled(BOLD@, "Services:"@) + "\n  tmux server:  "@ + tmux_text(
                report.tmux_sessions,
            ) + "\n  hyprland:     "@ + hyprland_text(report.hyprland) + "\n"@,
        ),
        has_text(
            report_text(report),
            "\n"@ + styled(BOLD@, "Log file:"@) + "\n  "@ + log_text(
                report.log_path@,
                report.log_exists,
            ) + "\n\n"@,
        ),
        exists|front: Seq<char>|
            report_text(report) == #[trigger] (front + (verdict_text(tools_suffice(report.tools@))
                + "\n"@)),
{
    let head = styled(BOLD@, "Jump System Verification"@) + "\n========================\n\n"@;
    let title = styled(BOLD@, "Tools:"@) + "\n"@;
    let lines = tool_texts(report.tools@);
    let services = "\n"@ + styled(BOLD@, "Services:"@) + "\n  tmux server:  "@ + tmux_text(
        report.tmux_sessions,
    ) + "\n  hyprland:     "@ + hyprland_text(report.hyprland) + "\n"@;
    let log = "\n"@ + styled(BOLD@, "Log file:"@) + "\n  "@ + log_text(
        report.log_path@,
        report.log_exists,
    ) + "\n\n"@;
    let verdict = verdict_text(tools_suffice(report.tools@));
    lemma_report_row(head, title, lines, services, log, verdict, "\n"@);
    lemma_parts_of_rows(head + title, lines, services, log, verdict + "\n"@);
}

proof fn lemma_report_row(
    head: Seq<char>,
    title: Seq<char>,
    lines: Seq<char>,
    services: Seq<char>,
    log: Seq<char>,
    verdict: Seq<char>,
    end: Seq<char>,
)
    ensures
        head + (title + lines) + services + log + verdict + end == (head + title) + lines + services
            + log + (verdict + end),
{
    assert(head + (title + lines) + services + log + verdict + end =~= (head + title) + lines
        + services + log + (verdict + end));
}

/// The report tells the server of tmux, Hyprland and the log, each behind its name, and ends with
/// whether the required tools are there.
pub proof fn lemma_reports_tell_services_log_and_verdict(report: SystemReport)
    ensures
        has_text(report_text(report), "\n  tmux server:  "@ + tmux_text(report.tmux_sessions)),
        has_text(report_text(report), "\n  hyprland:     "@ + hyprland_text(report.hyprland)),
        has_text(
            report_text(report),
            "Log file:"@ + RESET@ + "\n  "@ + log_text(report.log_path@, report.log_exists),
        ),
        exists|front: Seq<char>|
            report_text(report) == #[trigger] (front + (verdict_text(tools_suffice(report.tools@))
                + "\n"@)),
{
    let tmux = tmux_text(report.tmux_sessions);
    let hyprland = hyprland_text(report.hyprland);
    let log = log_text(report.log_path@, report.log_exists);
    let title = "\n"@ + styled(BOLD@, "Services:"@);
    let services = title + "\n  tmux server:  "@ + tmux + "\n  hyprland:     "@ + hyprland + "\n"@;
    lemma_report_holds_its_parts(report);
    lemma_services_row(title, "\n  tmux server:  "@, tmux, "\n  hyprland:     "@, hyprland, "\n"@);
    lemma_parts_of_parts(report_text(report), services, "\n  tmux server:  "@ + tmux);
    lemma_parts_of_parts(report_text(report), services, "\n  hyprland:     "@ + hyprland);
    let log_part = "\n"@ + styled(BOLD@, "Log file:"@) + "\n  "@ + log + "\n\n"@;
    lemma_log_row("\n"@, BOLD@, "Log file:"@, RESET@, "\n  "@, log, "\n\n"@);
    lemma_parts_of_parts(
        report_text(report),
        log_part,
        "Log file:"@ + RESET@ + "\n  "@ + log,
    );
}

proof fn lemma_services_row(
    title: Seq<char>,
    first: Seq<char>,
    tmux: Seq<char>,
    second: Seq<char>,
    hyprland: Seq<char>,
    end: Seq<char>,
)
    ensures
        has_text(title + first + tmux + second + hyprland + end, first + tmux),
        has_text(title + first + tmux + second + hyprland + end, second + hyprland),
{
    let whole = title + first + tmux + second + hyprland + end;
    assert(whole =~= title + (first + tmux) + (second + hyprland + end));
    lemma_texts_stand_in_others(title, first + tmux, second + hyprland + end);
    assert(whole =~= (title + first + tmux) + (second + hyprland) + end);
    lemma_texts_stand_in_others(title + first + tmux, second + hyprland, end);
}

proof fn lemma_log_row(
    start: Seq<char>,
    style: Seq<char>,
    title: Seq<char>,
    reset: Seq<char>,
    gap: Seq<char>,
    log: Seq<char>,
    end: Seq<char>,
)
    ensures
        has_text(start + (style + title + reset) + gap + log + end, title + reset + gap + log),
{
    let whole = start + (style + title + reset) + gap + log + end;
    assert(whole =~= (start + style) + (title + reset + gap + log) + end);
    lemma_texts_stand_in_others(start + style, title + reset + gap + log, end);
}

/// What the report says of the services, the log and the tools: how many sessions tmux has, whether
/// Hyprland runs, where the log is and whether it is there, and whether a required tool is missing.
pub proof fn lemma_reports_tell_what_was_found(count: u64, path: Seq<char>)
    ensures
        tmux_text(Some(count)) == GREEN@ + "\u{2713}"@ + RESET@ + " "@ + decimal_of(count as nat)
            + " sessions"@,
        tmux_text(None) == RED@ + "\u{2717}"@ + RESET@ + " not running"@,
        hyprland_text(true) == GREEN@ + "\u{2713}"@ + RESET@ + " active"@,
        hyprland_text(false) == DIM@ + "-"@ + RESET@ + " not running"@,
        log_text(path, true) == GREEN@ + "\u{2713}"@ + RESET@ + " "@ + (DIM@ + path + RESET@),
        log_text(path, false) == DIM@ + "-"@ + RESET@ + " "@ + (DIM@ + path + RESET@),
        verdict_text(true) == BOLD@ + GREEN@ + "All required tools are available."@ + RESET@,
        verdict_text(false) == BOLD@ + RED@ + "Some required tools are missing."@ + RESET@,
{
}

/// The sessions of tmux are the lines that it lists; where it fails, its server does not run.
pub proof fn lemma_sessions_are_counted(success: bool, stdout: String, stderr: String)
    ensures
        success ==> session_count(ToolRun::Ended { success, stdout, stderr }) == Some(
            line_list(stdout@).len(),
        ),
        !success ==> session_count(ToolRun::Ended { success, stdout, stderr }) is None,
        session_count(ToolRun::Missing) is None,
{
}

} // verus!
