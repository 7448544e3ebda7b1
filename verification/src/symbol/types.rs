//! What is known of a symbol.

use vstd::prelude::*;

use crate::text::opt_view;

verus! {

/// A symbol with the place where it is defined.
pub struct SymbolInfo {
    pub qualified_name: Option<String>,
    pub kind: Option<String>,
    pub definition_uri: Option<String>,
    /// The line of the definition, counted from 1.
    pub definition_line: Option<u32>,
}

/// What a [`SymbolInfo`] says.
pub struct SymbolView {
    pub qualified_name: Option<Seq<char>>,
    pub kind: Option<Seq<char>>,
    pub definition_uri: Option<Seq<char>>,
    pub definition_line: Option<u32>,
}

impl SymbolInfo {
    /// What the symbol information says.
    pub open spec fn view(self) -> SymbolView {
        SymbolView {
            qualified_name: opt_view(self.qualified_name),
            kind: opt_view(self.kind),
            definition_uri: opt_view(self.definition_uri),
            definition_line: self.definition_line,
        }
    }
}

/// A symbol together with the text that the language server shows for it.
pub struct HoverOutput {
    pub symbol_info: SymbolInfo,
    pub hover_text: Option<String>,
}

/// What symbol information says are the texts and the number in it.
pub proof fn lemma_symbols_say_what_they_hold(symbol: SymbolInfo)
    ensures
        symbol@.qualified_name == opt_view(symbol.qualified_name),
        symbol@.kind == opt_view(symbol.kind),
        symbol@.definition_uri == opt_view(symbol.definition_uri),
        symbol@.definition_line == symbol.definition_line,
{
}

} // verus!
