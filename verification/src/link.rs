//! Links to source code, taken apart.
//!
//! A link is a page on GitHub, as in `https://github.com/owner/repo/blob/main/src/lib.rs#L10-L20`,
//! or a path with or without a line or a range of lines, as in `src/lib.rs:5`.

use vstd::prelude::*;
use vstd::string::*;

use crate::paths::{is_absolute, is_absolute_path};
use crate::records::{JumpLinkKind, JumpRequest};
use crate::text::{
    after_char, before_char, char_position, decimal_of, has_prefix, has_text, is_whitespace,
    lemma_before_char,
    lemma_char_position_facts, lemma_decimal_digits, lemma_decimal_value, lemma_no_leading_zeros,
    lemma_split_at_char, lemma_texts_stand_in_others, lemma_trimmed_blank, lemma_trimmed_inner,
    numeral_value, opt_str, opt_view, parse_usize, past_prefix, same_text, skip_prefix,
    strip_prefix, take_after, take_before, trim, trimmed, without_prefix,
};

verus! {

/// What a [`JumpRequest`] says.
pub struct LinkView {
    pub kind: JumpLinkKind,
    pub path: Seq<char>,
    pub line: Option<u32>,
    pub end_line: Option<u32>,
    pub repo_name: Option<Seq<char>>,
    pub revision: Option<Seq<char>>,
}

impl JumpRequest {
    /// What the request says.
    pub open spec fn view(self) -> LinkView {
        LinkView {
            kind: self.kind,
            path: self.path@,
            line: self.line,
            end_line: self.end_line,
            repo_name: opt_view(self.repo_name),
            revision: opt_view(self.revision),
        }
    }
}

/// Why a text is no link.
#[derive(Debug, Clone, Copy, PartialEq, Eq, Structural)]
pub enum LinkError {
    /// There is nothing.
    Empty,
    /// The page on GitHub is not the page of a file.
    NoFile,
}

impl LinkError {
    /// What to tell the user.
    pub open spec fn text(self) -> Seq<char> {
        match self {
            LinkError::Empty => "The link is empty"@,
            LinkError::NoFile => "The link leads to no file"@,
        }
    }

    /// What to tell the user.
    pub fn message(&self) -> (r: &'static str)
        ensures
            r@ == self.text(),
    {
        match self {
            LinkError::Empty => "The link is empty",
            LinkError::NoFile => "The link leads to no file",
        }
    }
}

/// The number of a line, which an `L` may precede.
pub open spec fn line_number(s: Seq<char>) -> Option<u32> {
    match numeral_value(past_prefix(s, "L"@)) {
        Some(n) => if n <= u32::MAX {
            Some(n as u32)
        } else {
            None
        },
        None => None,
    }
}

/// The lines that a text names: one, or the first and the last with a hyphen between them.
pub open spec fn line_range(s: Seq<char>) -> Option<(u32, Option<u32>)> {
    match (line_number(before_char(s, '-')), after_char(s, '-')) {
        (Some(first), None) => Some((first, None)),
        (Some(first), Some(rest)) => match line_number(rest) {
            Some(last) => Some((first, Some(last))),
            None => None,
        },
        (None, _) => None,
    }
}

/// A path with the lines behind it, where a colon and lines follow.
pub open spec fn path_link(s: Seq<char>) -> LinkView {
    let lines = match after_char(s, ':') {
        Some(rest) => line_range(rest),
        None => None,
    };
    let path = if lines is Some {
        before_char(s, ':')
    } else {
        s
    };
    LinkView {
        kind: if is_absolute_path(path) {
            JumpLinkKind::Absolute
        } else {
            JumpLinkKind::Relative
        },
        path,
        line: match lines {
            Some((first, _)) => Some(first),
            None => None,
        },
        end_line: match lines {
            Some((_, last)) => last,
            None => None,
        },
        repo_name: None,
        revision: None,
    }
}

/// What follows the first slash; nothing where there is none.
pub open spec fn below(s: Seq<char>) -> Seq<char> {
    match after_char(s, '/') {
        Some(rest) => rest,
        None => seq![],
    }
}

/// A page on GitHub: `s` is what follows the name of the host. The page of a file has `blob` and a
/// revision between the repository and the path.
pub open spec fn page_link(s: Seq<char>) -> Option<LinkView> {
    let repo = before_char(below(s), '/');
    let word = before_char(below(below(s)), '/');
    let revision = before_char(below(below(below(s))), '/');
    let place = below(below(below(below(s))));
    let path = before_char(place, '#');
    let lines = match after_char(place, '#') {
        Some(rest) => line_range(rest),
        None => None,
    };
    if repo.len() == 0 || word != "blob"@ || revision.len() == 0 || path.len() == 0 {
        None
    } else {
        Some(
            LinkView {
                kind: JumpLinkKind::Github,
                path,
                line: match lines {
                    Some((first, _)) => Some(first),
                    None => None,
                },
                end_line: match lines {
                    Some((_, last)) => last,
                    None => None,
                },
                repo_name: Some(repo),
                revision: Some(revision),
            },
        )
    }
}

/// What a link names.
pub open spec fn link_of(text: Seq<char>) -> Result<LinkView, LinkError> {
    let t = trimmed(text);
    if t.len() == 0 {
        Err(LinkError::Empty)
    } else {
        match without_prefix(t, "https://github.com/"@) {
            Some(rest) => match page_link(rest) {
                Some(link) => Ok(link),
                None => Err(LinkError::NoFile),
            },
            None => Ok(path_link(t)),
        }
    }
}

fn read_line_number(s: &str) -> (r: Option<u32>)
    ensures
        r == line_number(s@),
{
    match parse_usize(skip_prefix(s, "L")) {
        Some(n) => if n <= u32::MAX as usize {
            Some(n as u32)
        } else {
            None
        },
        None => None,
    }
}

fn read_line_range(s: &str) -> (r: Option<(u32, Option<u32>)>)
    ensures
        r == line_range(s@),
{
    match (read_line_number(take_before(s, '-')), take_after(s, '-')) {
        (Some(first), None) => Some((first, None)),
        (Some(first), Some(rest)) => match read_line_number(rest) {
            Some(last) => Some((first, Some(last))),
            None => None,
        },
        (None, _) => None,
    }
}

fn read_lines(s: Option<&str>) -> (r: Option<(u32, Option<u32>)>)
    ensures
        r == (match opt_str(s) {
            Some(rest) => line_range(rest),
            None => None,
        }),
{
    match s {
        Some(rest) => read_line_range(rest),
        None => None,
    }
}

fn split_lines(lines: Option<(u32, Option<u32>)>) -> (r: (Option<u32>, Option<u32>))
    ensures
        r == (match lines {
            Some((first, last)) => (Some(first), last),
            None => (None, None),
        }),
{
    match lines {
        Some((first, last)) => (Some(first), last),
        None => (None, None),
    }
}

fn read_path(s: &str) -> (r: JumpRequest)
    ensures
        r@ == path_link(s@),
{
    let lines: Option<(u32, Option<u32>)> = read_lines(take_after(s, ':'));
    let path: &str = if lines.is_some() {
        take_before(s, ':')
    } else {
        s
    };
    let kind: JumpLinkKind = if is_absolute(path) {
        JumpLinkKind::Absolute
    } else {
        JumpLinkKind::Relative
    };
    let (line, end_line): (Option<u32>, Option<u32>) = split_lines(lines);
    JumpRequest { kind, path: path.to_string(), line, end_line, repo_name: None, revision: None }
}

fn skip_segment<'a>(s: &'a str) -> (r: &'a str)
    ensures
        r@ == below(s@),
{
    match take_after(s, '/') {
        Some(rest) => rest,
        None => {
            proof {
                reveal_strlit("");
                assert(""@ =~= Seq::<char>::empty());
            }
            ""
        },
    }
}

fn read_page(s: &str) -> (r: Option<JumpRequest>)
    ensures
        match r {
            Some(request) => page_link(s@) == Some(request@),
            None => page_link(s@) is None,
        },
{
    let at_repo: &str = skip_segment(s);
    let at_word: &str = skip_segment(at_repo);
    let at_revision: &str = skip_segment(at_word);
    let place: &str = skip_segment(at_revision);
    let repo: &str = take_before(at_repo, '/');
    let revision: &str = take_before(at_revision, '/');
    let path: &str = take_before(place, '#');
    if repo.is_empty() || !same_text(take_before(at_word, '/'), "blob") || revision.is_empty()
        || path.is_empty() {
        return None;
    }
    let (line, end_line): (Option<u32>, Option<u32>) = split_lines(
        read_lines(take_after(place, '#')),
    );
    Some(
        JumpRequest {
            kind: JumpLinkKind::Github,
            path: path.to_string(),
            line,
            end_line,
            repo_name: Some(repo.to_string()),
            revision: Some(revision.to_string()),
        },
    )
}

/// Takes a link apart.
pub fn parse_link(text: &str) -> (r: Result<JumpRequest, LinkError>)
    ensures
        match r {
            Ok(request) => link_of(text@) == Ok::<LinkView, LinkError>(request@),
            Err(error) => link_of(text@) == Err::<LinkView, LinkError>(error),
        },
{
    let t: &str = trim(text);
    if t.is_empty() {
        return Err(LinkError::Empty);
    }
    match strip_prefix(t, "https://github.com/") {
        Some(rest) => match read_page(rest) {
            Some(request) => Ok(request),
            None => Err(LinkError::NoFile),
        },
        None => Ok(read_path(t)),
    }
}

/// A link leads to GitHub just where it names a repository.
pub proof fn lemma_only_pages_name_repositories(text: Seq<char>)
    requires
        link_of(text) is Ok,
    ensures
        link_of(text)->Ok_0.kind == JumpLinkKind::Github <==> link_of(text)->Ok_0.repo_name is Some,
        link_of(text)->Ok_0.kind == JumpLinkKind::Absolute ==> is_absolute_path(
            link_of(text)->Ok_0.path,
        ),
{
}

/// A number names a line, with an `L` before it or without; two numbers with a hyphen between them
/// name the first and the last line.
pub proof fn lemma_numbers_name_lines(first: u32, last: u32, a: Seq<char>, b: Seq<char>)
    requires
        a == decimal_of(first as nat) || a == "L"@ + decimal_of(first as nat),
        b == decimal_of(last as nat) || b == "L"@ + decimal_of(last as nat),
    ensures
        line_number(a) == Some(first),
        line_range(a) == Some((first, None::<u32>)),
        line_range(a + seq!['-'] + b) == Some((first, Some(last))),
{
    lemma_number_names_a_line(first, a);
    lemma_number_names_a_line(last, b);
    lemma_split_at_char(a, '-', b);
    lemma_before_char(a, '-');
    lemma_char_position_facts(a, '-');
}

proof fn lemma_number_names_a_line(n: u32, text: Seq<char>)
    requires
        text == decimal_of(n as nat) || text == "L"@ + decimal_of(n as nat),
    ensures
        line_number(text) == Some(n),
        !text.contains('-'),
{
    let numeral = decimal_of(n as nat);
    reveal_strlit("L");
    assert("L"@ =~= seq!['L']);
    lemma_decimal_value(n as nat);
    lemma_decimal_digits(n as nat);
    lemma_no_leading_zeros(n as nat);
    lemma_texts_stand_in_others(Seq::empty(), "L"@, numeral);
    if has_prefix(numeral, "L"@) {
        assert(numeral.subrange(0, 1)[0] == numeral[0]);
    }
    assert forall|i: int| 0 <= i < text.len() implies text[i] != '-' by {
        if text != numeral {
            if i > 0 {
                assert(text[i] == numeral[i - 1]);
            }
        }
    }
}

proof fn lemma_is_no_page(t: Seq<char>, at: int)
    requires
        0 <= at < t.len(),
        t[at] == ':',
        forall|i: int| 0 <= i < at ==> t[i] != ':',
        at + 1 < t.len() ==> t[at + 1] != '/',
    ensures
        !has_prefix(t, "https://github.com/"@),
{
    reveal_strlit("https://github.com/");
    let host = "https://github.com/"@;
    assert(host[5] == ':' && host[6] == '/' && host[0] == 'h' && host[1] == 't' && host[2] == 't'
        && host[3] == 'p' && host[4] == 's');
    if has_prefix(t, host) {
        let start = t.subrange(0, host.len() as int);
        assert(start[5] == t[5] && start[6] == t[6]);
        assert(start[0] == t[0] && start[1] == t[1] && start[2] == t[2] && start[3] == t[3]
            && start[4] == t[4]);
    }
}

/// A path with lines behind a colon is taken apart: the path is what precedes the colon, and a path
/// from the root directory is absolute.
pub proof fn lemma_paths_with_lines_are_taken_apart(
    path: Seq<char>,
    lines: Seq<char>,
    first: u32,
    last: Option<u32>,
)
    requires
        path.len() > 0,
        !is_whitespace(path[0]),
        !path.contains(':'),
        lines.len() > 0,
        !is_whitespace(lines.last()),
        lines[0] != '/',
        line_range(lines) == Some((first, last)),
    ensures
        link_of(path + seq![':'] + lines) == Ok::<LinkView, LinkError>(
            LinkView {
                kind: if path[0] == '/' {
                    JumpLinkKind::Absolute
                } else {
                    JumpLinkKind::Relative
                },
                path,
                line: Some(first),
                end_line: last,
                repo_name: None,
                revision: None,
            },
        ),
{
    let t = path + seq![':'] + lines;
    assert(t.last() == lines.last());
    lemma_trimmed_inner(Seq::empty(), t, Seq::empty());
    assert(Seq::<char>::empty() + t + Seq::<char>::empty() =~= t);
    lemma_split_at_char(path, ':', lines);
    assert forall|i: int| 0 <= i < path.len() implies t[i] != ':' by {
        assert(path.contains(path[i]));
    }
    lemma_is_no_page(t, path.len() as int);
}

/// A path without lines is the whole link: without a colon, or with something else behind it.
pub proof fn lemma_paths_without_lines_are_whole(path: Seq<char>)
    requires
        path.len() > 0,
        !is_whitespace(path[0]),
        !is_whitespace(path.last()),
        !has_prefix(path, "https://github.com/"@),
        after_char(path, ':') matches Some(rest) ==> line_range(rest) is None,
    ensures
        link_of(path) == Ok::<LinkView, LinkError>(
            LinkView {
                kind: if path[0] == '/' {
                    JumpLinkKind::Absolute
                } else {
                    JumpLinkKind::Relative
                },
                path,
                line: None,
                end_line: None,
                repo_name: None,
                revision: None,
            },
        ),
{
    lemma_trimmed_inner(Seq::empty(), path, Seq::empty());
    assert(Seq::<char>::empty() + path + Seq::<char>::empty() =~= path);
}

/// White space around a link does not matter, and white space alone is no link.
pub proof fn lemma_space_around_links_does_not_matter(
    before: Seq<char>,
    text: Seq<char>,
    after: Seq<char>,
)
    requires
        forall|i: int| 0 <= i < before.len() ==> is_whitespace(before[i]),
        forall|i: int| 0 <= i < after.len() ==> is_whitespace(after[i]),
    ensures
        text.len() > 0 && !is_whitespace(text[0]) && !is_whitespace(text.last()) ==> link_of(
            before + text + after,
        ) == link_of(text),
        link_of(before) == Err::<LinkView, LinkError>(LinkError::Empty),
{
    lemma_trimmed_blank(before);
    if text.len() > 0 && !is_whitespace(text[0]) && !is_whitespace(text.last()) {
        lemma_trimmed_inner(before, text, after);
        lemma_trimmed_inner(Seq::empty(), text, Seq::empty());
        assert(Seq::<char>::empty() + text + Seq::<char>::empty() =~= text);
    }
}

/// The page of a file on GitHub: behind the host come the owner, the repository, `blob`, the
/// revision and the path of the file. A page without lines names none.
pub proof fn lemma_pages_are_taken_apart(
    owner: Seq<char>,
    repo: Seq<char>,
    word: Seq<char>,
    revision: Seq<char>,
    path: Seq<char>,
)
    requires
        !owner.contains('/'),
        !repo.contains('/'),
        !word.contains('/'),
        !revision.contains('/'),
        !path.contains('#'),
        path.len() > 0 ==> !is_whitespace(path.last()),
    ensures
        ({
            let text = "https://github.com/"@ + (owner + seq!['/'] + (repo + seq!['/'] + (word
                + seq!['/'] + (revision + seq!['/'] + path))));
            if word == "blob"@ && repo.len() > 0 && revision.len() > 0 && path.len() > 0 {
                link_of(text) == Ok::<LinkView, LinkError>(
                    LinkView {
                        kind: JumpLinkKind::Github,
                        path,
                        line: None,
                        end_line: None,
                        repo_name: Some(repo),
                        revision: Some(revision),
                    },
                )
            } else {
                link_of(text) == Err::<LinkView, LinkError>(LinkError::NoFile)
            }
        }),
{
    let host = "https://github.com/"@;
    let at_revision = revision + seq!['/'] + path;
    let at_word = word + seq!['/'] + at_revision;
    let at_repo = repo + seq!['/'] + at_word;
    let page = owner + seq!['/'] + at_repo;
    let text = host + page;
    lemma_split_at_char(owner, '/', at_repo);
    lemma_split_at_char(repo, '/', at_word);
    lemma_split_at_char(word, '/', at_revision);
    lemma_split_at_char(revision, '/', path);
    lemma_before_char(path, '#');
    lemma_char_position_facts(path, '#');
    lemma_texts_stand_in_others(Seq::empty(), host, page);
    reveal_strlit("https://github.com/");
    assert(text[0] == 'h');
    if path.len() > 0 {
        assert(text.last() == path.last());
    } else {
        assert(text.last() == '/');
    }
    lemma_trimmed_inner(Seq::empty(), text, Seq::empty());
    assert(Seq::<char>::empty() + text + Seq::<char>::empty() =~= text);
}

proof fn lemma_below(s: Seq<char>)
    ensures
        below(s).len() > 0 ==> s == before_char(s, '/') + seq!['/'] + below(s),
{
    lemma_char_position_facts(s, '/');
    if char_position(s, '/') < s.len() {
        let n = char_position(s, '/') as int;
        assert(s =~= s.take(n) + seq!['/'] + s.skip(n + 1));
    }
}

proof fn lemma_blob_between(owner: Seq<char>, repo: Seq<char>, rest: Seq<char>)
    ensures
        has_text(
            owner + seq!['/'] + (repo + seq!['/'] + ("blob"@ + seq!['/'] + rest)),
            "/blob/"@,
        ),
{
    let front = owner + seq!['/'] + repo;
    reveal_strlit("/blob/");
    reveal_strlit("blob");
    assert("/blob/"@ =~= seq!['/'] + "blob"@ + seq!['/']);
    assert(owner + seq!['/'] + (repo + seq!['/'] + ("blob"@ + seq!['/'] + rest)) =~= front
        + "/blob/"@ + rest);
    lemma_texts_stand_in_others(front, "/blob/"@, rest);
}

proof fn lemma_blob_page(page: Seq<char>)
    requires
        page_link(page) is Some,
    ensures
        has_text(page, "/blob/"@),
{
    let at_repo = below(page);
    let at_word = below(at_repo);
    let at_revision = below(at_word);
    lemma_char_position_facts(at_revision, '/');
    assert(at_revision.len() > 0);
    lemma_below(at_word);
    assert(at_word.len() > 0);
    lemma_below(at_repo);
    assert(at_repo.len() > 0);
    lemma_below(page);
    lemma_blob_between(before_char(page, '/'), before_char(at_repo, '/'), at_revision);
}

/// Only pages with `blob` between two slashes lead to files.
pub proof fn lemma_pages_of_files_say_blob(page: Seq<char>)
    requires
        page.len() > 0,
        !is_whitespace(page.last()),
    ensures
        link_of("https://github.com/"@ + page) is Ok ==> has_text(page, "/blob/"@),
{
    let host = "https://github.com/"@;
    let text = host + page;
    reveal_strlit("https://github.com/");
    assert(text[0] == 'h');
    assert(text.last() == page.last());
    lemma_trimmed_inner(Seq::empty(), text, Seq::empty());
    assert(Seq::<char>::empty() + text + Seq::<char>::empty() =~= text);
    lemma_texts_stand_in_others(Seq::empty(), host, page);
    if page_link(page) is Some {
        lemma_blob_page(page);
    }
}

/// A range needs the numbers on both sides of its hyphen, and a number that fits no line names none.
pub proof fn lemma_ranges_need_their_numbers(first: Seq<char>, last: Seq<char>, n: nat)
    requires
        !first.contains('-'),
        n > u32::MAX,
    ensures
        line_range(first) is Some <==> line_number(first) is Some,
        line_range(first + seq!['-'] + last) is Some <==> line_number(first) is Some && line_number(
            last,
        ) is Some,
        line_number(decimal_of(n)) is None,
        line_number("L"@ + decimal_of(n)) is None,
{
    let numeral = decimal_of(n);
    lemma_split_at_char(first, '-', last);
    lemma_before_char(first, '-');
    lemma_char_position_facts(first, '-');
    reveal_strlit("L");
    assert("L"@ =~= seq!['L']);
    lemma_decimal_value(n);
    lemma_decimal_digits(n);
    lemma_no_leading_zeros(n);
    lemma_texts_stand_in_others(Seq::empty(), "L"@, numeral);
    if has_prefix(numeral, "L"@) {
        assert(numeral.subrange(0, 1)[0] == numeral[0]);
    }
}

/// A link that leads nowhere is told apart from an empty one.
pub proof fn lemma_links_are_refused_with_a_reason(text: Seq<char>)
    ensures
        link_of(text) matches Err(error) ==> error.text() == if trimmed(text).len() == 0 {
            "The link is empty"@
        } else {
            "The link leads to no file"@
        },
        link_of(text) is Err ==> trimmed(text).len() == 0 || has_prefix(
            trimmed(text),
            "https://github.com/"@,
        ),
{
}

/// The lines of a page on GitHub stand behind a `#`; what stands there and names no lines does not
/// count.
pub proof fn lemma_lines_of_pages_stand_behind_the_hash(s: Seq<char>)
    ensures
        page_link(s) matches Some(link) ==> {
            let place = below(below(below(below(s))));
            let lines = match after_char(place, '#') {
                Some(rest) => line_range(rest),
                None => None,
            };
            &&& link.path == before_char(place, '#')
            &&& link.line == match lines {
                Some((first, _)) => Some(first),
                None => None,
            }
            &&& link.end_line == match lines {
                Some((_, last)) => last,
                None => None,
            }
        },
{
}

/// What a link that was taken apart says are its parts.
pub proof fn lemma_links_say_what_they_hold(request: JumpRequest)
    ensures
        request@.kind == request.kind,
        request@.path == request.path@,
        request@.line == request.line && request@.end_line == request.end_line,
        request@.repo_name == opt_view(request.repo_name),
        request@.revision == opt_view(request.revision),
{
}

} // verus!
