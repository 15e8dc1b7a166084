//! Read-only descriptors of source locations and of what the linter and the
//! evaluator report about them.

use crate::text::{int_text, push_nat_text};
use vstd::prelude::*;
use vstd::string::StringExecFns;

verus! {

/// A position in a file. Line and column count from zero and print from one.
#[derive(Clone, Copy, Debug, PartialEq, Eq, Structural)]
pub struct ResolvedPos {
    pub line: usize,
    pub column: usize,
}

/// A range in a file, from `begin` to `end`.
#[derive(Clone, Copy, Debug, PartialEq, Eq, Structural)]
pub struct ResolvedSpan {
    pub begin: ResolvedPos,
    pub end: ResolvedPos,
}

/// A range in a named file.
#[derive(Clone, Debug, PartialEq)]
pub struct ResolvedFileSpan {
    pub file: String,
    pub span: ResolvedSpan,
}

/// What a `ResolvedFileSpan` holds.
pub struct FileSpanView {
    pub file: Seq<char>,
    pub span: ResolvedSpan,
}

impl View for ResolvedFileSpan {
    type V = FileSpanView;

    open spec fn view(&self) -> FileSpanView {
        FileSpanView { file: self.file@, span: self.span }
    }
}

/// The text of a position: line and column, counted from one.
pub open spec fn pos_text(pos: ResolvedPos) -> Seq<char> {
    int_text(pos.line + 1) + seq![':'] + int_text(pos.column + 1)
}

/// The text of a span. An empty span prints as its position, a span within
/// one line as its begin and the end column, any other as begin and end.
pub open spec fn span_text(span: ResolvedSpan) -> Seq<char> {
    if span.begin.line == span.end.line && span.begin.column == span.end.column {
        pos_text(span.begin)
    } else if span.begin.line == span.end.line {
        pos_text(span.begin) + seq!['-'] + int_text(span.end.column + 1)
    } else {
        pos_text(span.begin) + seq!['-'] + pos_text(span.end)
    }
}

/// The display form of a file span: the file, a colon, the span.
pub open spec fn file_span_text(span: FileSpanView) -> Seq<char> {
    span.file + seq![':'] + span_text(span.span)
}

fn push_one_based(n: usize, out: &mut String)
    ensures
        final(out)@ == old(out)@ + int_text(n + 1),
{
    push_nat_text(n as u128 + 1, out);
}

impl ResolvedPos {
    pub fn line(&self) -> (r: usize)
        ensures
            r == self.line,
    {
        self.line
    }

    pub fn column(&self) -> (r: usize)
        ensures
            r == self.column,
    {
        self.column
    }

    fn push_text(&self, out: &mut String)
        ensures
            final(out)@ == old(out)@ + pos_text(*self),
    {
        proof {
            reveal_strlit(":");
        }
        push_one_based(self.line, out);
        out.append(":");
        push_one_based(self.column, out);
        assert(out@ =~= old(out)@ + pos_text(*self));
    }
}

impl ResolvedSpan {
    pub fn begin(&self) -> (r: ResolvedPos)
        ensures
            r == self.begin,
    {
        self.begin
    }

    pub fn end(&self) -> (r: ResolvedPos)
        ensures
            r == self.end,
    {
        self.end
    }

    fn push_text(&self, out: &mut String)
        ensures
            final(out)@ == old(out)@ + span_text(*self),
    {
        proof {
            reveal_strlit("-");
        }
        let single_line = self.begin.line == self.end.line;
        self.begin.push_text(out);
        if single_line && self.begin.column == self.end.column {
        } else if single_line {
            out.append("-");
            push_one_based(self.end.column, out);
        } else {
            out.append("-");
            self.end.push_text(out);
        }
        assert(out@ =~= old(out)@ + span_text(*self));
    }
}

impl ResolvedFileSpan {
    pub fn file(&self) -> (r: String)
        ensures
            r@ == self@.file,
    {
        self.file.clone()
    }

    pub fn span(&self) -> (r: ResolvedSpan)
        ensures
            r == self@.span,
    {
        self.span
    }

    /// A copy of the span.
    pub fn duplicate(&self) -> (r: ResolvedFileSpan)
        ensures
            r@ == self@,
    {
        ResolvedFileSpan { file: self.file.clone(), span: self.span }
    }

    /// Appends the display form to `out`.
    pub fn push_text(&self, out: &mut String)
        ensures
            final(out)@ == old(out)@ + file_span_text(self@),
    {
        proof {
            reveal_strlit(":");
        }
        out.append(self.file.as_str());
        out.append(":");
        self.span.push_text(out);
        assert(out@ =~= old(out)@ + file_span_text(self@));
    }

    /// The display form: the file, a colon, the span.
    pub fn to_text(&self) -> (r: String)
        ensures
            r@ == file_span_text(self@),
    {
        let mut out = String::new();
        self.push_text(&mut out);
        assert(out@ =~= file_span_text(self@));
        out
    }
}

/// How grave a finding of the linter is.
#[derive(Clone, Copy, Debug, PartialEq, Eq, Structural)]
pub enum EvalSeverity {
    Error,
    Warning,
    Advice,
    Disabled,
}

/// The name of a severity.
pub open spec fn severity_text(severity: EvalSeverity) -> Seq<char> {
    match severity {
        EvalSeverity::Error => "Error"@,
        EvalSeverity::Warning => "Warning"@,
        EvalSeverity::Advice => "Advice"@,
        EvalSeverity::Disabled => "Disabled"@,
    }
}

impl EvalSeverity {
    /// The name of the severity.
    pub fn repr(&self) -> (r: String)
        ensures
            r@ == severity_text(*self),
    {
        match self {
            EvalSeverity::Error => "Error".to_owned(),
            EvalSeverity::Warning => "Warning".to_owned(),
            EvalSeverity::Advice => "Advice".to_owned(),
            EvalSeverity::Disabled => "Disabled".to_owned(),
        }
    }

    /// The name of the severity.
    pub fn to_text(&self) -> (r: String)
        ensures
            r@ == severity_text(*self),
    {
        self.repr()
    }
}

/// A finding of the linter.
#[derive(Clone, Debug, PartialEq)]
pub struct Lint {
    pub location: ResolvedFileSpan,
    pub short_name: String,
    pub severity: EvalSeverity,
    pub problem: String,
    pub original: String,
}

/// What a `Lint` holds.
pub struct LintView {
    pub location: FileSpanView,
    pub short_name: Seq<char>,
    pub severity: EvalSeverity,
    pub problem: Seq<char>,
    pub original: Seq<char>,
}

impl View for Lint {
    type V = LintView;

    open spec fn view(&self) -> LintView {
        LintView {
            location: self.location@,
            short_name: self.short_name@,
            severity: self.severity,
            problem: self.problem@,
            original: self.original@,
        }
    }
}

/// The display form of a finding: where it is, a colon and a space, and
/// what the problem is.
pub open spec fn lint_text(lint: LintView) -> Seq<char> {
    file_span_text(lint.location) + ": "@ + lint.problem
}

impl Lint {
    pub fn severity(&self) -> (r: EvalSeverity)
        ensures
            r == self@.severity,
    {
        self.severity
    }

    pub fn resolved_location(&self) -> (r: ResolvedFileSpan)
        ensures
            r@ == self@.location,
    {
        self.location.duplicate()
    }

    /// The display form of the finding.
    pub fn to_text(&self) -> (r: String)
        ensures
            r@ == lint_text(self@),
    {
        let mut out = String::new();
        self.location.push_text(&mut out);
        out.append(": ");
        out.append(self.problem.as_str());
        assert(out@ =~= lint_text(self@));
        out
    }
}

} // verus!
