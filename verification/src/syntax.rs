//! Parsing: from a source text to the syntax tree that an evaluation
//! consumes.
//!
//! The parser is the embedded language's own, `starlark`'s. The boundary
//! layer chooses the dialect, hands the source over, and turns a refusal
//! into its own error.

use crate::dialect::{parse_dialect, Dialect, DialectTypes};
use crate::error::{BridgeError, ErrorView};
use vstd::prelude::*;

verus! {

#[verifier::external_type_specification]
#[verifier::external_body]
pub struct ExAstModule(starlark::syntax::AstModule);

/// The message with which the parser refuses a source in a dialect, or
/// `None` where it accepts the source. The file name only serves the
/// message.
pub uninterp spec fn parse_failure(filename: Seq<char>, content: Seq<char>, dialect: Dialect) -> Option<
    Seq<char>,
>;

/// `AstModule::parse` of `starlark`, in the dialect with the given options
/// and the others as the standard has them. Claims that it fails where
/// `parse_failure` names a message, and then with that message as the
/// error displays it.
#[verifier::external_body]
fn parse_source(filename: &str, content: &str, dialect: &Dialect) -> (r: Result<
    starlark::syntax::AstModule,
    String,
>)
    ensures
        match r {
            Ok(_) => parse_failure(filename@, content@, *dialect) is None,
            Err(m) => parse_failure(filename@, content@, *dialect) == Some(m@),
        },
{
    let mut d = starlark::syntax::Dialect::Standard;
    d.enable_def = dialect.enable_def;
    d.enable_lambda = dialect.enable_lambda;
    d.enable_load = dialect.enable_load;
    d.enable_keyword_only_arguments = dialect.enable_keyword_only_arguments;
    d.enable_types = match dialect.enable_types {
        DialectTypes::Disable => starlark::syntax::DialectTypes::Disable,
        DialectTypes::ParseOnly => starlark::syntax::DialectTypes::ParseOnly,
        DialectTypes::Enable => starlark::syntax::DialectTypes::Enable,
    };
    d.enable_load_reexport = dialect.enable_load_reexport;
    d.enable_top_level_stmt = dialect.enable_top_level_stmt;
    d.enable_f_strings = dialect.enable_f_strings;
    starlark::syntax::AstModule::parse(filename, content.to_owned(), &d).map_err(|e| e.to_string())
}

/// A parsed source. An evaluation consumes it: the syntax tree can be taken
/// once, and whoever asks again is told that it is gone.
pub struct Ast {
    module: Option<starlark::syntax::AstModule>,
}

impl Ast {
    /// The syntax tree, as long as no evaluation has taken it.
    pub closed spec fn tree(self) -> Option<starlark::syntax::AstModule> {
        self.module
    }

    /// The syntax tree, for reading, if it is still there.
    pub fn inner(&self) -> (r: Option<&starlark::syntax::AstModule>)
        ensures
            match r {
                Some(tree) => self.tree() == Some(*tree),
                None => self.tree() is None,
            },
    {
        self.module.as_ref()
    }

    /// Hands the syntax tree over to an evaluation. It is gone afterwards:
    /// a second request fails.
    pub fn take(&mut self) -> (r: Result<starlark::syntax::AstModule, BridgeError>)
        ensures
            final(self).tree() is None,
            match r {
                Ok(tree) => old(self).tree() == Some(tree),
                Err(e) => old(self).tree() is None && e@ == ErrorView::AstConsumed,
            },
    {
        match self.module.take() {
            Some(tree) => Ok(tree),
            None => Err(BridgeError::AstConsumed),
        }
    }
}

/// Parses a source. The file name serves error messages only. Where the
/// host names no dialect, the standard one is taken.
pub fn parse(filename: &str, content: &str, dialect: Option<Dialect>) -> (r: Result<
    Ast,
    BridgeError,
>)
    ensures
        match r {
            Ok(ast) => ast.tree() is Some && parse_failure(
                filename@,
                content@,
                match dialect {
                    Some(d) => d,
                    None => crate::dialect::standard_dialect(),
                },
            ) is None,
            Err(e) => parse_failure(
                filename@,
                content@,
                match dialect {
                    Some(d) => d,
                    None => crate::dialect::standard_dialect(),
                },
            ) matches Some(m) && e@ == (ErrorView::Parse { message: m, span: None }),
        },
{
    let dialect = parse_dialect(dialect);
    match parse_source(filename, content, &dialect) {
        Ok(module) => Ok(Ast { module: Some(module) }),
        Err(message) => Err(BridgeError::Parse { message, span: None }),
    }
}

} // verus!
