//! References to symbols in Markdown.

use vstd::prelude::*;
use vstd::string::*;

use crate::git::GitHubLink;
use crate::symbol::rust::{clean_name, lemma_clean_name, name_ending};
use crate::symbol::types::{SymbolInfo, SymbolView};
use crate::text::{
    before_char, decimal, decimal_of, lemma_before_char, lemma_before_char_behind,
    lemma_stripped_end, lemma_stripped_end_facts, strip_end, stripped_end, take_before,
};

verus! {

/// Where a reference leads.
#[derive(Debug, Clone, Copy)]
pub enum LinkType {
    Local,
    GitHub,
    Relative,
}

/// Why a reference could not be written.
#[derive(Debug)]
pub struct FormatError {
    pub message: String,
}

/// What is cut off the end of a name in a label.
pub open spec fn label_ending() -> Seq<char> {
    seq!['{', ';', ':', '(', ',', ' ']
}

/// A name as it stands in a label: without generics and without what follows a name in a
/// declaration.
pub open spec fn label_name(name: Seq<char>) -> Seq<char> {
    stripped_end(before_char(name, '<'), label_ending())
}

/// The label of a symbol: its kind and its name, as far as they are known.
pub open spec fn symbol_label(symbol: SymbolView) -> Seq<char> {
    match (symbol.qualified_name, symbol.kind) {
        (Some(name), Some(kind)) => kind + " "@ + label_name(name),
        (Some(name), None) => label_name(name),
        (None, Some(kind)) => kind,
        (None, None) => "unknown"@,
    }
}

/// A link to a line of a local file.
pub open spec fn local_link(uri: Seq<char>, line: Option<u32>) -> Seq<char> {
    match line {
        Some(n) => uri + "#L"@ + decimal_of(n as nat),
        None => uri,
    }
}

/// Where the reference to a symbol leads: to GitHub where a link is given, else to the definition.
pub open spec fn target_url(symbol: SymbolView, github_url: Option<Seq<char>>) -> Option<
    Seq<char>,
> {
    match github_url {
        Some(url) => Some(url),
        None => match symbol.definition_uri {
            Some(uri) => Some(local_link(uri, symbol.definition_line)),
            None => None,
        },
    }
}

/// The reference to a symbol in Markdown; its label alone where it leads nowhere.
pub open spec fn markdown_reference(symbol: SymbolView, github_url: Option<Seq<char>>) -> Seq<
    char,
> {
    match target_url(symbol, github_url) {
        Some(url) => "["@ + symbol_label(symbol) + "]("@ + url + ")"@,
        None => symbol_label(symbol),
    }
}

/// The URL of an optional link.
pub open spec fn url_of(link: Option<&GitHubLink>) -> Option<Seq<char>> {
    match link {
        Some(l) => Some(l.url@),
        None => None,
    }
}

/// Writes references to symbols.
pub trait ReferenceFormatter {
    /// The reference to a symbol in Markdown.
    fn format_markdown(&self, symbol: &SymbolInfo, github_link: Option<&GitHubLink>) -> (r: Result<
        String,
        FormatError,
    >);
}

/// Writes references as Markdown links.
#[derive(Default)]
pub struct MarkdownFormatter;

impl MarkdownFormatter {
    /// A name as it stands in a label.
    pub fn clean_symbol_name(name: &str) -> (r: String)
        ensures
            r@ == label_name(name@),
    {
        let set: [char; 6] = ['{', ';', ':', '(', ',', ' '];
        assert(set@ =~= label_ending());
        strip_end(take_before(name, '<'), &set).to_string()
    }

    /// The label of a symbol.
    pub fn format_symbol_name(symbol: &SymbolInfo) -> (r: String)
        ensures
            r@ == symbol_label(symbol@),
    {
        if let Some(name) = &symbol.qualified_name {
            let clean: String = Self::clean_symbol_name(name.as_str());
            if let Some(kind) = &symbol.kind {
                let mut out: String = kind.clone();
                out.append(" ");
                out.append(clean.as_str());
                out
            } else {
                clean
            }
        } else if let Some(kind) = &symbol.kind {
            kind.clone()
        } else {
            "unknown".to_string()
        }
    }

    /// A link to a line of a local file.
    pub fn format_local_link(uri: &str, line: Option<u32>) -> (r: String)
        ensures
            r@ == local_link(uri@, line),
    {
        let mut out: String = uri.to_string();
        if let Some(n) = line {
            out.append("#L");
            out.append(decimal(n as u64).as_str());
        }
        out
    }
}

impl MarkdownFormatter {
    /// The reference to a symbol in Markdown.
    pub fn write_reference(symbol: &SymbolInfo, github_link: Option<&GitHubLink>) -> (r: String)
        ensures
            r@ == markdown_reference(symbol@, url_of(github_link)),
    {
        let label: String = Self::format_symbol_name(symbol);
        let url: String = if let Some(link) = github_link {
            link.url.clone()
        } else if let Some(uri) = &symbol.definition_uri {
            Self::format_local_link(uri.as_str(), symbol.definition_line)
        } else {
            return label;
        };
        let mut out: String = "[".to_string();
        out.append(label.as_str());
        out.append("](");
        out.append(url.as_str());
        out.append(")");
        out
    }
}

impl ReferenceFormatter for MarkdownFormatter {
    fn format_markdown(&self, symbol: &SymbolInfo, github_link: Option<&GitHubLink>) -> (r: Result<
        String,
        FormatError,
    >)
        ensures
            r matches Ok(text) && text@ == markdown_reference(symbol@, url_of(github_link)),
    {
        Ok(Self::write_reference(symbol, github_link))
    }
}

/// A name in a label is the start of the name, shows no generics, ends in none of the characters
/// that follow a name, and stays as it is when it is cleaned again.
pub proof fn lemma_label_name(name: Seq<char>)
    ensures
        label_name(name).len() <= name.len(),
        label_name(name) == name.take(label_name(name).len() as int),
        !label_name(name).contains('<'),
        label_name(name).len() > 0 ==> !label_ending().contains(label_name(name).last()),
        label_name(label_name(name)) == label_name(name),
{
    let before = before_char(name, '<');
    let clean = label_name(name);
    lemma_before_char(name, '<');
    lemma_stripped_end_facts(before, label_ending());
    assert(clean =~= name.take(clean.len() as int));
    assert forall|i: int| 0 <= i < clean.len() implies clean[i] != '<' by {
        assert(before.contains(before[i]));
    }
    lemma_before_char(clean, '<');
}

proof fn lemma_strip_more(s: Seq<char>, some: Seq<char>, more: Seq<char>)
    requires
        forall|c: char| some.contains(c) ==> #[trigger] more.contains(c),
    ensures
        stripped_end(stripped_end(s, some), more) == stripped_end(s, more),
    decreases s.len(),
{
    if s.len() > 0 && some.contains(s.last()) {
        lemma_strip_more(s.drop_last(), some, more);
        assert(more.contains(s.last()));
    }
}

/// A name that was cleaned before looks the same in a label as the name itself.
pub proof fn lemma_cleaning_before_labelling(name: Seq<char>)
    ensures
        label_name(clean_name(name)) == label_name(name),
{
    let before = before_char(name, '<');
    let clean = clean_name(name);
    lemma_clean_name(name);
    lemma_before_char(clean, '<');
    assert forall|c: char| name_ending().contains(c) implies #[trigger] label_ending().contains(
        c,
    ) by {
        let i = choose|i: int| 0 <= i < name_ending().len() && name_ending()[i] == c;
        assert(label_ending()[i] == c);
    }
    lemma_strip_more(before, name_ending(), label_ending());
}

/// A label shows no generics, unless the kind of the symbol does.
pub proof fn lemma_labels_show_no_generics(symbol: SymbolView)
    requires
        symbol.kind matches Some(kind) ==> !kind.contains('<'),
    ensures
        !symbol_label(symbol).contains('<'),
{
    reveal_strlit("unknown");
    reveal_strlit(" ");
    let label = symbol_label(symbol);
    if label.contains('<') {
        let i = choose|i: int| 0 <= i < label.len() && label[i] == '<';
        if let Some(name) = symbol.qualified_name {
            lemma_label_name(name);
            let clean = label_name(name);
            if let Some(kind) = symbol.kind {
                if i < kind.len() {
                    assert(kind[i] == '<');
                } else if i > kind.len() {
                    assert(clean[i - kind.len() - 1] == '<');
                }
            }
        }
    }
}

/// The label of a symbol with a name shows its kind, where it is known, and the name as far as it
/// precedes its generics and what ends a name.
pub proof fn lemma_labels_show_kind_and_name(
    symbol: SymbolView,
    name: Seq<char>,
    tail: Seq<char>,
)
    requires
        !name.contains('<'),
        name.len() > 0 ==> !seq!['{', ';', ':', '(', ',', ' '].contains(name.last()),
        forall|i: int|
            0 <= i < before_char(tail, '<').len() ==> seq!['{', ';', ':', '(', ',', ' '].contains(
                #[trigger] tail[i],
            ),
        symbol.qualified_name == Some(name + tail),
    ensures
        symbol_label(symbol) == match symbol.kind {
            Some(kind) => kind + " "@ + name,
            None => name,
        },
{
    let cut = before_char(tail, '<');
    let kept = name + cut;
    lemma_before_char_behind(name, tail, '<');
    lemma_before_char(tail, '<');
    assert forall|i: int| name.len() <= i < kept.len() implies label_ending().contains(
        #[trigger] kept[i],
    ) by {
        assert(kept[i] == tail[i - name.len()]);
    }
    lemma_stripped_end(kept, label_ending(), name.len() as int);
    assert(kept.take(name.len() as int) =~= name);
}

/// The label of a symbol without a name is its kind, and without that too it says so.
pub proof fn lemma_labels_without_names(symbol: SymbolView)
    requires
        symbol.qualified_name is None,
    ensures
        symbol_label(symbol) == match symbol.kind {
            Some(kind) => kind,
            None => "unknown"@,
        },
{
}

/// A reference is a link in Markdown with the label of the symbol: to GitHub where such a link is
/// given, whatever the definition is, else to the file of the definition at its line. Without either
/// it is the label.
pub proof fn lemma_references_are_links(symbol: SymbolView, url: Seq<char>)
    ensures
        markdown_reference(symbol, Some(url)) == "["@ + symbol_label(symbol) + "]("@ + url + ")"@,
        symbol.definition_uri matches Some(uri) ==> markdown_reference(symbol, None) == "["@
            + symbol_label(symbol) + "]("@ + (match symbol.definition_line {
            Some(line) => uri + "#L"@ + decimal_of(line as nat),
            None => uri,
        }) + ")"@,
        symbol.definition_uri is None ==> markdown_reference(symbol, None) == symbol_label(symbol),
{
}

} // verus!
