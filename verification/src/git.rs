//! Links to source code on GitHub.

use vstd::prelude::*;
use vstd::string::*;

use crate::link::{line_number, line_range, link_of, page_link, LinkError, LinkView};
use crate::records::JumpLinkKind;
use crate::text::{
    after_char, before_suffix, decimal, decimal_of, drop_suffix, has_prefix,
    is_whitespace, lemma_before_char, lemma_char_position_facts, lemma_decimal_digits,
    lemma_decimal_value, lemma_split_at_char, lemma_texts_stand_in_others, lemma_trimmed_inner,
    opt_view, strip_prefix, without_prefix,
};

verus! {

/// A range of lines, counted from 1.
pub struct LineRange {
    pub start: u32,
    pub end: Option<u32>,
}

/// A permanent link to lines of a file.
pub struct GitHubLink {
    pub url: String,
    pub markdown: String,
    pub relative_path: String,
    pub revision: String,
    pub lines: LineRange,
    pub provider: String,
}

/// What a [`GitHubLink`] says.
pub struct GitHubLinkView {
    pub url: Seq<char>,
    pub markdown: Seq<char>,
    pub relative_path: Seq<char>,
    pub revision: Seq<char>,
    pub lines: LineRange,
    pub provider: Seq<char>,
}

impl GitHubLink {
    /// What the link says.
    pub open spec fn view(self) -> GitHubLinkView {
        GitHubLinkView {
            url: self.url@,
            markdown: self.markdown@,
            relative_path: self.relative_path@,
            revision: self.revision@,
            lines: self.lines,
            provider: self.provider@,
        }
    }
}

/// The owner and the name of the repository at the address of a git remote, where it is on GitHub.
pub open spec fn repository_at(address: Seq<char>) -> Option<Seq<char>> {
    let rest = if has_prefix(address, "git@github.com:"@) {
        without_prefix(address, "git@github.com:"@)
    } else if has_prefix(address, "ssh://git@github.com/"@) {
        without_prefix(address, "ssh://git@github.com/"@)
    } else {
        without_prefix(address, "https://github.com/"@)
    };
    match rest {
        Some(name) => Some(before_suffix(name, ".git"@)),
        None => None,
    }
}

/// The owner and the name of the repository at the address of a git remote, where it is on GitHub.
pub fn find_repository(address: &str) -> (r: Option<String>)
    ensures
        opt_view(r) == repository_at(address@),
{
    let rest: &str = if let Some(rest) = strip_prefix(address, "git@github.com:") {
        rest
    } else if let Some(rest) = strip_prefix(address, "ssh://git@github.com/") {
        rest
    } else if let Some(rest) = strip_prefix(address, "https://github.com/") {
        rest
    } else {
        return None;
    };
    Some(drop_suffix(rest, ".git").to_string())
}

/// The part of a link that names its lines.
pub open spec fn lines_text(start: u32, end: Option<u32>) -> Seq<char> {
    match end {
        Some(last) => "#L"@ + decimal_of(start as nat) + "-L"@ + decimal_of(last as nat),
        None => "#L"@ + decimal_of(start as nat),
    }
}

/// The page of lines of a file at a revision.
pub open spec fn permalink_url(
    repository: Seq<char>,
    revision: Seq<char>,
    path: Seq<char>,
    start: u32,
    end: Option<u32>,
) -> Seq<char> {
    "https://github.com/"@ + repository + "/blob/"@ + revision + "/"@ + path + lines_text(
        start,
        end,
    )
}

fn write_lines(start: u32, end: Option<u32>) -> (r: String)
    ensures
        r@ == lines_text(start, end),
{
    let mut out: String = "#L".to_string();
    out.append(decimal(start as u64).as_str());
    if let Some(last) = end {
        out.append("-L");
        out.append(decimal(last as u64).as_str());
    }
    out
}

/// A permanent link to lines of a file. `repository` has the owner and the name of the repository,
/// and the path is seen from its root.
pub fn permalink(
    repository: &str,
    revision: &str,
    relative_path: &str,
    start: u32,
    end: Option<u32>,
) -> (r: GitHubLink)
    ensures
        r.url@ == permalink_url(repository@, revision@, relative_path@, start, end),
        r.markdown@ == "["@ + relative_path@ + lines_text(start, end) + "]("@ + r.url@ + ")"@,
        r.relative_path@ == relative_path@,
        r.revision@ == revision@,
        r.lines == (LineRange { start, end }),
        r.provider@ == "github"@,
{
    let lines: String = write_lines(start, end);
    let mut url: String = "https://github.com/".to_string();
    url.append(repository);
    url.append("/blob/");
    url.append(revision);
    url.append("/");
    url.append(relative_path);
    url.append(lines.as_str());
    let mut markdown: String = "[".to_string();
    markdown.append(relative_path);
    markdown.append(lines.as_str());
    markdown.append("](");
    markdown.append(url.as_str());
    markdown.append(")");
    GitHubLink {
        url,
        markdown,
        relative_path: relative_path.to_string(),
        revision: revision.to_string(),
        lines: LineRange { start, end },
        provider: "github".to_string(),
    }
}

proof fn lemma_line_number(n: u32)
    ensures
        line_number("L"@ + decimal_of(n as nat)) == Some(n),
        !("L"@ + decimal_of(n as nat)).contains('-'),
{
    let numeral = decimal_of(n as nat);
    let text = "L"@ + numeral;
    reveal_strlit("L");
    lemma_decimal_value(n as nat);
    lemma_decimal_digits(n as nat);
    assert(text.subrange(0, 1) =~= "L"@);
    assert(text.skip(1) =~= numeral);
    assert forall|i: int| 0 <= i < text.len() implies text[i] != '-' by {
        if i > 0 {
            assert(text[i] == numeral[i - 1]);
        }
    }
}

/// The lines of a link are read back.
pub proof fn lemma_lines_are_read_back(start: u32, end: Option<u32>)
    ensures
        lines_text(start, end).len() > 1,
        lines_text(start, end)[0] == '#',
        !is_whitespace(lines_text(start, end).last()),
        line_range(lines_text(start, end).skip(1)) == Some((start, end)),
{
    let first = "L"@ + decimal_of(start as nat);
    let text = lines_text(start, end);
    reveal_strlit("#L");
    reveal_strlit("-L");
    reveal_strlit("L");
    lemma_line_number(start);
    lemma_decimal_value(start as nat);
    lemma_decimal_digits(start as nat);
    match end {
        Some(last) => {
            let second = "L"@ + decimal_of(last as nat);
            lemma_line_number(last);
            lemma_decimal_value(last as nat);
            lemma_decimal_digits(last as nat);
            lemma_split_at_char(first, '-', second);
            assert(text.skip(1) =~= first + seq!['-'] + second);
            assert(text.last() == decimal_of(last as nat).last());
        },
        None => {
            assert(text.skip(1) =~= first);
            lemma_before_char(first, '-');
            assert(after_char(first, '-') is None) by {
                lemma_char_position_facts(first, '-');
            }
            assert(text.last() == decimal_of(start as nat).last());
        },
    }
}

/// What follows the name of the host in a permanent link.
spec fn page_of(
    owner: Seq<char>,
    repo: Seq<char>,
    revision: Seq<char>,
    path: Seq<char>,
    lines: Seq<char>,
) -> Seq<char> {
    let at_revision = revision + seq!['/'] + (path + lines);
    let at_repo = repo + seq!['/'] + ("blob"@ + seq!['/'] + at_revision);
    owner + seq!['/'] + at_repo
}

proof fn lemma_url_parts(
    owner: Seq<char>,
    repo: Seq<char>,
    revision: Seq<char>,
    path: Seq<char>,
    start: u32,
    end: Option<u32>,
)
    ensures
        permalink_url(owner + seq!['/'] + repo, revision, path, start, end)
            == "https://github.com/"@ + page_of(
            owner,
            repo,
            revision,
            path,
            lines_text(start, end),
        ),
{
    reveal_strlit("/blob/");
    reveal_strlit("blob");
    reveal_strlit("/");
    assert("/blob/"@ =~= seq!['/'] + "blob"@ + seq!['/']);
    assert("/"@ =~= seq!['/']);
    assert(permalink_url(owner + seq!['/'] + repo, revision, path, start, end)
        =~= "https://github.com/"@ + page_of(owner, repo, revision, path, lines_text(start, end)));
}

proof fn lemma_page_parts(
    owner: Seq<char>,
    repo: Seq<char>,
    revision: Seq<char>,
    path: Seq<char>,
    start: u32,
    end: Option<u32>,
)
    requires
        !owner.contains('/'),
        !repo.contains('/'),
        !revision.contains('/'),
        !path.contains('#'),
        repo.len() > 0,
        revision.len() > 0,
        path.len() > 0,
    ensures
        page_link(page_of(owner, repo, revision, path, lines_text(start, end))) == Some(
            LinkView {
                kind: JumpLinkKind::Github,
                path,
                line: Some(start),
                end_line: end,
                repo_name: Some(repo),
                revision: Some(revision),
            },
        ),
{
    let lines = lines_text(start, end);
    let place = path + lines;
    let at_revision = revision + seq!['/'] + place;
    let at_word = "blob"@ + seq!['/'] + at_revision;
    let at_repo = repo + seq!['/'] + at_word;
    lemma_lines_are_read_back(start, end);
    reveal_strlit("blob");
    assert(!"blob"@.contains('/'));
    lemma_split_at_char(owner, '/', at_repo);
    lemma_split_at_char(repo, '/', at_word);
    lemma_split_at_char("blob"@, '/', at_revision);
    lemma_split_at_char(revision, '/', place);
    assert(place =~= path + seq!['#'] + lines.skip(1));
    lemma_split_at_char(path, '#', lines.skip(1));
}

/// A permanent link leads back to the file and the lines that it was made for.
pub proof fn lemma_permalink_leads_back(
    owner: Seq<char>,
    repo: Seq<char>,
    revision: Seq<char>,
    path: Seq<char>,
    start: u32,
    end: Option<u32>,
)
    requires
        !owner.contains('/'),
        !repo.contains('/'),
        !revision.contains('/'),
        !path.contains('#'),
        repo.len() > 0,
        revision.len() > 0,
        path.len() > 0,
    ensures
        link_of(permalink_url(owner + seq!['/'] + repo, revision, path, start, end)) == Ok::<
            LinkView,
            LinkError,
        >(
            LinkView {
                kind: JumpLinkKind::Github,
                path,
                line: Some(start),
                end_line: end,
                repo_name: Some(repo),
                revision: Some(revision),
            },
        ),
{
    let url = permalink_url(owner + seq!['/'] + repo, revision, path, start, end);
    let host = "https://github.com/"@;
    let lines = lines_text(start, end);
    let page = page_of(owner, repo, revision, path, lines);
    lemma_url_parts(owner, repo, revision, path, start, end);
    lemma_page_parts(owner, repo, revision, path, start, end);
    lemma_lines_are_read_back(start, end);
    reveal_strlit("https://github.com/");
    assert(url[0] == 'h');
    assert(url.last() == lines.last());
    lemma_trimmed_inner(Seq::empty(), url, Seq::empty());
    assert(Seq::<char>::empty() + url + Seq::<char>::empty() =~= url);
    assert(url.subrange(0, host.len() as int) =~= host);
    assert(url.skip(host.len() as int) =~= page);
}

/// The address of a repository on GitHub, in each of the ways that git knows, names the repository
/// behind the host; the ending `.git` does not count. Any other address is not on GitHub.
pub proof fn lemma_addresses_name_repositories(prefix: Seq<char>, name: Seq<char>, other: Seq<char>)
    requires
        prefix == "git@github.com:"@ || prefix == "ssh://git@github.com/"@ || prefix
            == "https://github.com/"@,
    ensures
        repository_at(prefix + (name + ".git"@)) == Some(name),
        before_suffix(name, ".git"@) == name ==> repository_at(prefix + name) == Some(name),
        repository_at(other) is Some ==> has_prefix(other, "git@github.com:"@) || has_prefix(
            other,
            "ssh://git@github.com/"@,
        ) || has_prefix(other, "https://github.com/"@),
{
    reveal_strlit("git@github.com:");
    reveal_strlit("ssh://git@github.com/");
    reveal_strlit("https://github.com/");
    assert("git@github.com:"@[0] == 'g' && "ssh://git@github.com/"@[0] == 's');
    assert("https://github.com/"@[0] == 'h');
    lemma_texts_stand_in_others(Seq::empty(), prefix, name);
    lemma_texts_stand_in_others(Seq::empty(), prefix, name + ".git"@);
    lemma_texts_stand_in_others(name, ".git"@, Seq::empty());
    lemma_first_letter(prefix + name, "git@github.com:"@);
    lemma_first_letter(prefix + name, "ssh://git@github.com/"@);
    lemma_first_letter(prefix + (name + ".git"@), "git@github.com:"@);
    lemma_first_letter(prefix + (name + ".git"@), "ssh://git@github.com/"@);
}

proof fn lemma_first_letter(s: Seq<char>, prefix: Seq<char>)
    requires
        prefix.len() > 0,
    ensures
        has_prefix(s, prefix) ==> s.len() > 0 && s[0] == prefix[0],
{
    if has_prefix(s, prefix) {
        assert(s.subrange(0, prefix.len() as int)[0] == s[0]);
    }
}

/// The lines of a permanent link: the first one, and the last one where it is given.
pub proof fn lemma_permalinks_name_their_lines(
    repository: Seq<char>,
    revision: Seq<char>,
    path: Seq<char>,
    start: u32,
    last: u32,
)
    ensures
        permalink_url(repository, revision, path, start, None) == "https://github.com/"@ + repository
            + "/blob/"@ + revision + "/"@ + path + "#L"@ + decimal_of(start as nat),
        permalink_url(repository, revision, path, start, Some(last)) == permalink_url(
            repository,
            revision,
            path,
            start,
            None,
        ) + "-L"@ + decimal_of(last as nat),
{
    assert(permalink_url(repository, revision, path, start, None) =~= "https://github.com/"@
        + repository + "/blob/"@ + revision + "/"@ + path + "#L"@ + decimal_of(start as nat));
    assert(permalink_url(repository, revision, path, start, Some(last)) =~= permalink_url(
        repository,
        revision,
        path,
        start,
        None,
    ) + "-L"@ + decimal_of(last as nat));
}

} // verus!
