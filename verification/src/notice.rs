//! What the desktop says when a jump has ended.

use vstd::prelude::*;
use vstd::string::*;

use crate::app::requests::JumpOutcome;
use crate::paths::{file_name, file_name_of, is_name, lemma_last_name_of_path};
use crate::text::{decimal, decimal_of};

verus! {

/// A message on the desktop.
pub struct Notice {
    pub title: String,
    pub body: String,
    pub icon: &'static str,
    /// Whether the message is critical.
    pub critical: bool,
}

/// How long a message is shown, in milliseconds.
pub const NOTICE_TIMEOUT_MS: u32 = 3000;

/// The icon of a message.
pub open spec fn icon_of(success: bool) -> Seq<char> {
    if success {
        "dialog-information"@
    } else {
        "dialog-error"@
    }
}

/// A message: a failure is critical.
pub fn notify(title: &str, message: &str, success: bool) -> (r: Notice)
    ensures
        r.title@ == title@,
        r.body@ == message@,
        r.icon@ == icon_of(success),
        r.critical == !success,
{
    let icon: &'static str = if success {
        "dialog-information"
    } else {
        "dialog-error"
    };
    Notice { title: title.to_string(), body: message.to_string(), icon, critical: !success }
}

/// The name of a file with the line that is shown.
pub open spec fn place_text(file: Seq<char>, line: Option<u32>) -> Seq<char> {
    let name = match file_name_of(file) {
        Some(name) => name,
        None => file,
    };
    match line {
        Some(n) => name + ":"@ + decimal_of(n as nat),
        None => name,
    }
}

/// The message of a jump that has opened its file.
pub fn jump_notice(outcome: &JumpOutcome) -> (r: Notice)
    ensures
        r.title@ == "Jump"@,
        r.body@ == place_text(outcome.file@, outcome.line),
        r.icon@ == icon_of(true),
        !r.critical,
{
    let mut body: String = match file_name(outcome.file.as_str()) {
        Some(name) => name.to_string(),
        None => outcome.file.clone(),
    };
    if let Some(line) = outcome.line {
        body.append(":");
        body.append(decimal(line as u64).as_str());
    }
    notify("Jump", body.as_str(), true)
}

/// The message of a jump that has failed.
pub fn failure_notice(cause: &str) -> (r: Notice)
    ensures
        r.title@ == "Jump failed"@,
        r.body@ == cause@,
        r.icon@ == icon_of(false),
        r.critical,
{
    notify("Jump failed", cause, false)
}

/// What a jump has opened is told by the last name of its path, with the line behind it where there
/// is one.
pub proof fn lemma_places_are_told_by_name_and_line(base: Seq<char>, name: Seq<char>, line: u32)
    requires
        is_name(name),
        name != seq!['.', '.'],
    ensures
        place_text(base + seq!['/'] + name, None) == name,
        place_text(base + seq!['/'] + name, Some(line)) == name + ":"@ + decimal_of(line as nat),
{
    lemma_last_name_of_path(base, name);
}

/// The two outcomes of a jump have icons of their own.
pub proof fn lemma_outcomes_have_their_icons(success: bool)
    ensures
        success ==> icon_of(success) == "dialog-information"@,
        !success ==> icon_of(success) == "dialog-error"@,
{
}

/// A path that names no file is told whole.
pub proof fn lemma_paths_without_files_are_told_whole(file: Seq<char>, line: u32)
    requires
        file_name_of(file) is None,
    ensures
        place_text(file, None) == file,
        place_text(file, Some(line)) == file + ":"@ + decimal_of(line as nat),
        NOTICE_TIMEOUT_MS == 3000,
{
}

} // verus!
