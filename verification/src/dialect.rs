//! The options that the host sets for the parser and for the globals of an
//! evaluation.

use vstd::prelude::*;

verus! {

/// What the parser and the evaluator do with type annotations.
#[derive(Clone, Copy, Debug, PartialEq, Eq, Structural)]
pub enum DialectTypes {
    /// Types are refused when the source is parsed.
    Disable,
    /// Types are parsed and then ignored.
    ParseOnly,
    /// Types are parsed and checked when the code runs.
    Enable,
}

/// The features of the language that the parser accepts.
#[derive(Clone, Copy, Debug, PartialEq, Eq, Structural)]
pub struct Dialect {
    pub enable_def: bool,
    pub enable_lambda: bool,
    pub enable_load: bool,
    pub enable_keyword_only_arguments: bool,
    pub enable_types: DialectTypes,
    pub enable_load_reexport: bool,
    pub enable_top_level_stmt: bool,
    pub enable_f_strings: bool,
}

/// The dialect of the language standard.
pub open spec fn standard_dialect() -> Dialect {
    Dialect {
        enable_def: true,
        enable_lambda: true,
        enable_load: true,
        enable_keyword_only_arguments: false,
        enable_types: DialectTypes::Disable,
        enable_load_reexport: true,
        enable_top_level_stmt: false,
        enable_f_strings: false,
    }
}

/// The standard dialect with keyword-only arguments, checked types and
/// statements at the top level.
pub open spec fn extended_dialect() -> Dialect {
    Dialect {
        enable_def: true,
        enable_lambda: true,
        enable_load: true,
        enable_keyword_only_arguments: true,
        enable_types: DialectTypes::Enable,
        enable_load_reexport: true,
        enable_top_level_stmt: true,
        enable_f_strings: false,
    }
}

impl Dialect {
    pub fn standard() -> (r: Dialect)
        ensures
            r == standard_dialect(),
    {
        Dialect {
            enable_def: true,
            enable_lambda: true,
            enable_load: true,
            enable_keyword_only_arguments: false,
            enable_types: DialectTypes::Disable,
            enable_load_reexport: true,
            enable_top_level_stmt: false,
            enable_f_strings: false,
        }
    }

    pub fn extended() -> (r: Dialect)
        ensures
            r == extended_dialect(),
    {
        Dialect {
            enable_def: true,
            enable_lambda: true,
            enable_load: true,
            enable_keyword_only_arguments: true,
            enable_types: DialectTypes::Enable,
            enable_load_reexport: true,
            enable_top_level_stmt: true,
            enable_f_strings: false,
        }
    }

    pub fn enable_def(&mut self, value: bool)
        ensures
            *final(self) == (Dialect { enable_def: value, ..*old(self) }),
    {
        self.enable_def = value;
    }

    pub fn enable_lambda(&mut self, value: bool)
        ensures
            *final(self) == (Dialect { enable_lambda: value, ..*old(self) }),
    {
        self.enable_lambda = value;
    }

    pub fn enable_load(&mut self, value: bool)
        ensures
            *final(self) == (Dialect { enable_load: value, ..*old(self) }),
    {
        self.enable_load = value;
    }

    pub fn enable_keyword_only_arguments(&mut self, value: bool)
        ensures
            *final(self) == (Dialect { enable_keyword_only_arguments: value, ..*old(self) }),
    {
        self.enable_keyword_only_arguments = value;
    }

    pub fn enable_types(&mut self, value: DialectTypes)
        ensures
            *final(self) == (Dialect { enable_types: value, ..*old(self) }),
    {
        self.enable_types = value;
    }

    pub fn enable_load_reexport(&mut self, value: bool)
        ensures
            *final(self) == (Dialect { enable_load_reexport: value, ..*old(self) }),
    {
        self.enable_load_reexport = value;
    }

    pub fn enable_top_level_stmt(&mut self, value: bool)
        ensures
            *final(self) == (Dialect { enable_top_level_stmt: value, ..*old(self) }),
    {
        self.enable_top_level_stmt = value;
    }

    pub fn enable_f_strings(&mut self, value: bool)
        ensures
            *final(self) == (Dialect { enable_f_strings: value, ..*old(self) }),
    {
        self.enable_f_strings = value;
    }
}

/// The dialect that a source is parsed in: the one that the host names, and
/// the standard one where it names none.
pub fn parse_dialect(dialect: Option<Dialect>) -> (r: Dialect)
    ensures
        r == match dialect {
            Some(d) => d,
            None => standard_dialect(),
        },
{
    match dialect {
        Some(dialect) => dialect,
        None => Dialect::standard(),
    }
}

/// A part of the library of the embedded language that is not in the
/// language standard and that the host can add to the globals.
#[derive(Clone, Copy, Debug, PartialEq, Eq, Structural)]
pub enum LibraryExtension {
    StructType,
    RecordType,
    EnumType,
    MapFunction,
    Filter,
    Partial,
    Debug,
    Print,
    Pprint,
    Breakpoint,
    Json,
    Typing,
    Internal,
    CallStack,
}

} // verus!
