//! The text of each error, for a reader.

use crate::container::{LoadError, LoadErrorView};
use crate::symbol::{SymbolError, SymbolErrorView};
use crate::text::{decimal, decimal_string};
use vstd::prelude::*;
use vstd::string::StringExecFns;

verus! {

/// The text of an error of the resolver.
pub open spec fn symbol_error_text(e: SymbolErrorView) -> Seq<char> {
    match e {
        SymbolErrorView::SymbolNotFound { name } => "Symbol \""@ + name + "\" does not exist"@,
        SymbolErrorView::MemberNotFound { member, path } => "There is no member \""@ + member
            + "\" in \""@ + path + "\""@,
        SymbolErrorView::IndexOutOfBounds { index, expression, extent } =>
            "requested array index "@ + decimal(index as nat) + " in expression \""@ + expression
                + "\", but the array only has "@ + decimal(extent as nat) + " elements"@,
        SymbolErrorView::TrailingComponents { rest, expression } => "Remaining portion \""@ + rest
            + "\" of \""@ + expression + "\" could not be matched"@,
        SymbolErrorView::UnparsableIndex { component } => "could not interpret \""@ + component
            + "\" as an array index"@,
        SymbolErrorView::OffsetOutOfBounds { offset, name } => "Offset "@ + decimal(offset as nat)
            + " is out of bounds for symbol \""@ + name + "\""@,
        SymbolErrorView::NoComponentAtOffset { offset, name } =>
            "Could not find a symbol component at offset "@ + decimal(offset as nat) + " from \""@
                + name + "\""@,
    }
}

/// The text of an error of loading.
pub open spec fn load_error_text(e: LoadErrorView) -> Seq<char> {
    match e {
        LoadErrorView::ParseFailed { filename, cause } => "Error: Failed to parse file '"@
            + filename + "': "@ + cause,
        LoadErrorView::MissingDebugInfo { filename } => "Error: "@ + filename
            + " does not contain DWARF2+ debug info. The section .debug_info is missing."@,
        LoadErrorView::NoCompileUnits { filename } => "Error: "@ + filename
            + " does not contain DWARF2+ debug info - zero compile units contain debug info."@,
    }
}

impl SymbolError {
    /// The text of the error.
    pub fn message(&self) -> (r: String)
        ensures
            r@ == symbol_error_text(self@),
    {
        match self {
            SymbolError::SymbolNotFound { name } => {
                let mut text = "Symbol \"".to_owned();
                text.append(name.as_str());
                text.append("\" does not exist");
                text
            },
            SymbolError::MemberNotFound { member, path } => {
                let mut text = "There is no member \"".to_owned();
                text.append(member.as_str());
                text.append("\" in \"");
                text.append(path.as_str());
                text.append("\"");
                text
            },
            SymbolError::IndexOutOfBounds { index, expression, extent } => {
                let mut text = "requested array index ".to_owned();
                text.append(decimal_string(*index as u64).as_str());
                text.append(" in expression \"");
                text.append(expression.as_str());
                text.append("\", but the array only has ");
                text.append(decimal_string(*extent).as_str());
                text.append(" elements");
                text
            },
            SymbolError::TrailingComponents { rest, expression } => {
                let mut text = "Remaining portion \"".to_owned();
                text.append(rest.as_str());
                text.append("\" of \"");
                text.append(expression.as_str());
                text.append("\" could not be matched");
                text
            },
            SymbolError::UnparsableIndex { component } => {
                let mut text = "could not interpret \"".to_owned();
                text.append(component.as_str());
                text.append("\" as an array index");
                text
            },
            SymbolError::OffsetOutOfBounds { offset, name } => {
                let mut text = "Offset ".to_owned();
                text.append(decimal_string(*offset).as_str());
                text.append(" is out of bounds for symbol \"");
                text.append(name.as_str());
                text.append("\"");
                text
            },
            SymbolError::NoComponentAtOffset { offset, name } => {
                let mut text = "Could not find a symbol component at offset ".to_owned();
                text.append(decimal_string(*offset).as_str());
                text.append(" from \"");
                text.append(name.as_str());
                text.append("\"");
                text
            },
        }
    }
}

impl LoadError {
    /// The text of the error.
    pub fn message(&self) -> (r: String)
        ensures
            r@ == load_error_text(self@),
    {
        match self {
            LoadError::ParseFailed { filename, cause } => {
                let mut text = "Error: Failed to parse file '".to_owned();
                text.append(filename.as_str());
                text.append("': ");
                text.append(cause.as_str());
                text
            },
            LoadError::MissingDebugInfo { filename } => {
                let mut text = "Error: ".to_owned();
                text.append(filename.as_str());
                text.append(
                    " does not contain DWARF2+ debug info. The section .debug_info is missing.",
                );
                text
            },
            LoadError::NoCompileUnits { filename } => {
                let mut text = "Error: ".to_owned();
                text.append(filename.as_str());
                text.append(
                    " does not contain DWARF2+ debug info - zero compile units contain debug info.",
                );
                text
            },
        }
    }
}

} // verus!
