//! Routing a source file to the extraction for its language, and what each
//! language's extraction outcome adds to a symbol store or a dependency list.
use vstd::prelude::*;
use crate::error::NTreeError;
use crate::models::TopLevelSymbol;
use crate::symbols::SymbolStore;
use crate::workspace::{language_error, language_of_path, SupportedLanguage};

verus! {

/// How extracting a file went, for the language that the file was routed to.
#[derive(Debug)]
pub enum ExtractionOutcome<T> {
    /// The file could not be parsed.
    Unparsed(NTreeError),
    /// The file was parsed, but could not be read or the extraction failed.
    Failed(NTreeError),
    /// What the extraction found.
    Extracted(T),
}

/// An import of one module by a file.
#[derive(Debug, Clone)]
pub struct ImportEdge {
    pub file: String,
    pub module: String,
}

/// A name that a file exports.
#[derive(Debug, Clone)]
pub struct ExportEdge {
    pub file: String,
    pub name: String,
}

/// Language-specific symbol extraction dispatcher.
pub struct SymbolExtractors;

/// What extracting the symbols of a file of a supported language does: a
/// file that cannot be parsed adds nothing, a failure is returned, and the
/// symbols found are added in order.
pub open spec fn symbol_extraction(
    r: Result<(), NTreeError>,
    before: Seq<TopLevelSymbol>,
    after: Seq<TopLevelSymbol>,
    path: Seq<char>,
    outcome: ExtractionOutcome<Vec<TopLevelSymbol>>,
) -> bool {
    match language_of_path(path) {
        None => r matches Err(NTreeError::InvalidInput(m)) && m@ == language_error(path) && after == before,
        Some(_) => match outcome {
            ExtractionOutcome::Unparsed(_) => r is Ok && after == before,
            ExtractionOutcome::Failed(e) => r == Err::<(), NTreeError>(e) && after == before,
            ExtractionOutcome::Extracted(v) => r is Ok && after == before + v@,
        },
    }
}

impl SymbolExtractors {
    /// Extract the symbols of the file at `file_path`, routed by its language,
    /// from what that language's extraction gave.
    pub fn extract_symbols(
        file_path: &str,
        outcome: ExtractionOutcome<Vec<TopLevelSymbol>>,
        symbol_store: &mut SymbolStore,
    ) -> (r: Result<(), NTreeError>)
        ensures
            symbol_extraction(r, old(symbol_store).symbols@, final(symbol_store).symbols@, file_path@, outcome),
    {
        match SupportedLanguage::from_path(file_path) {
            Err(e) => Err(e),
            Ok(_) => match outcome {
                ExtractionOutcome::Unparsed(_) => Ok(()),
                ExtractionOutcome::Failed(e) => Err(e),
                ExtractionOutcome::Extracted(symbols) => {
                    let mut symbols = symbols;
                    symbol_store.symbols.append(&mut symbols);
                    Ok(())
                },
            },
        }
    }
}

/// Language-aware extraction dispatcher.
pub struct LanguageExtractors;

impl LanguageExtractors {
    /// Extract symbols using the extraction for the file's language.
    pub fn extract_symbols(
        file_path: &str,
        outcome: ExtractionOutcome<Vec<TopLevelSymbol>>,
        symbol_store: &mut SymbolStore,
    ) -> (r: Result<(), NTreeError>)
        ensures
            symbol_extraction(r, old(symbol_store).symbols@, final(symbol_store).symbols@, file_path@, outcome),
    {
        SymbolExtractors::extract_symbols(file_path, outcome, symbol_store)
    }

    /// Extract imports and exports using the extraction for the file's language.
    pub fn extract_dependencies(
        file_path: &str,
        outcome: ExtractionOutcome<(Vec<ImportEdge>, Vec<ExportEdge>)>,
    ) -> (r: Result<(Vec<ImportEdge>, Vec<ExportEdge>), NTreeError>)
        ensures
            dependency_extraction(r, file_path@, outcome),
    {
        DependencyExtractors::extract_dependencies(file_path, outcome)
    }
}

/// Language-specific dependency extraction utilities.
pub struct DependencyExtractors;

/// What extracting the imports and exports of a file gives: Rust files give
/// none yet; a Python file that cannot be parsed is an error, a file of
/// another language that cannot be parsed gives none; a failure is returned.
pub open spec fn dependency_extraction(
    r: Result<(Vec<ImportEdge>, Vec<ExportEdge>), NTreeError>,
    path: Seq<char>,
    outcome: ExtractionOutcome<(Vec<ImportEdge>, Vec<ExportEdge>)>,
) -> bool {
    match language_of_path(path) {
        None => r matches Err(NTreeError::InvalidInput(m)) && m@ == language_error(path),
        Some(SupportedLanguage::Rust) => r matches Ok(d) && d.0@.len() == 0 && d.1@.len() == 0,
        Some(l) => match outcome {
            ExtractionOutcome::Unparsed(e) => if l == SupportedLanguage::Python {
                r == Err::<(Vec<ImportEdge>, Vec<ExportEdge>), NTreeError>(e)
            } else {
                r matches Ok(d) && d.0@.len() == 0 && d.1@.len() == 0
            },
            ExtractionOutcome::Failed(e) => r == Err::<(Vec<ImportEdge>, Vec<ExportEdge>), NTreeError>(e),
            ExtractionOutcome::Extracted(d) => r == Ok::<(Vec<ImportEdge>, Vec<ExportEdge>), NTreeError>(d),
        },
    }
}

impl DependencyExtractors {
    /// Extract imports and exports of the file at `file_path`, routed by its
    /// language, from what that language's extraction gave.
    pub fn extract_dependencies(
        file_path: &str,
        outcome: ExtractionOutcome<(Vec<ImportEdge>, Vec<ExportEdge>)>,
    ) -> (r: Result<(Vec<ImportEdge>, Vec<ExportEdge>), NTreeError>)
        ensures
            dependency_extraction(r, file_path@, outcome),
    {
        match SupportedLanguage::from_path(file_path) {
            Err(e) => Err(e),
            Ok(SupportedLanguage::Rust) => Ok((Vec::new(), Vec::new())),
            Ok(lang) => match outcome {
                ExtractionOutcome::Unparsed(e) => match lang {
                    SupportedLanguage::Python => Err(e),
                    _ => Ok((Vec::new(), Vec::new())),
                },
                ExtractionOutcome::Failed(e) => Err(e),
                ExtractionOutcome::Extracted(d) => Ok(d),
            },
        }
    }
}

} // verus!
