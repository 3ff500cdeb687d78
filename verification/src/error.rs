//! The diagnostic model that the scanner and the parser share: what a
//! diagnostic says, and the plain description of a report that a renderer
//! turns into output.

use crate::codes::ErrCode;
use vstd::prelude::*;

verus! {

/// A half-open byte range in a named source.
#[derive(Debug, PartialEq, Eq)]
pub struct ErrorSpan {
    source_id: String,
    start: usize,
    end: usize,
}

/// The mathematical value of an [`ErrorSpan`].
pub struct ErrorSpanView {
    pub source_id: Seq<char>,
    pub start: usize,
    pub end: usize,
}

impl View for ErrorSpan {
    type V = ErrorSpanView;

    closed spec fn view(&self) -> ErrorSpanView {
        ErrorSpanView { source_id: self.source_id@, start: self.start, end: self.end }
    }
}

/// The span from `start` to `end` in `source_id`; an `end` before `start`
/// is moved up to `start`.
pub open spec fn span_of(source_id: Seq<char>, start: int, end: int) -> ErrorSpanView
    recommends
        0 <= start <= usize::MAX,
        0 <= end <= usize::MAX,
{
    ErrorSpanView {
        source_id,
        start: start as usize,
        end: if end < start {
            start as usize
        } else {
            end as usize
        },
    }
}

impl ErrorSpan {
    /// A span from `start` to `end`. The end of a span never lies before
    /// its start: an `end` below `start` is replaced by `start`.
    pub fn new(source_id: &str, start: usize, end: usize) -> (s: Self)
        ensures
            s@ == span_of(source_id@, start as int, end as int),
            s@.start <= s@.end,
    {
        ErrorSpan {
            source_id: source_id.to_owned(),
            start,
            end: if end < start {
                start
            } else {
                end
            },
        }
    }

    /// The name of the source that the span lies in.
    pub fn source(&self) -> (id: &String)
        ensures
            id@ == self@.source_id,
    {
        &self.source_id
    }

    /// The offset of the first byte of the span.
    pub fn start(&self) -> (n: usize)
        ensures
            n == self@.start,
    {
        self.start
    }

    /// The offset after the last byte of the span.
    pub fn end(&self) -> (n: usize)
        ensures
            n == self@.end,
    {
        self.end
    }

}

impl Clone for ErrorSpan {
    fn clone(&self) -> (s: Self)
        ensures
            s@ == self@,
    {
        ErrorSpan { source_id: self.source_id.clone(), start: self.start, end: self.end }
    }
}

/// How a label is to be emphasised.
#[derive(Debug, Clone, Copy, PartialEq, Eq, Structural)]
pub enum LabelColor {
    /// The place of the fault.
    BrightRed,
    /// The place of a suggested repair.
    Green,
}

/// A remark attached to a span of the source.
#[derive(Debug, PartialEq, Eq)]
pub struct ReportLabel {
    pub span: ErrorSpan,
    pub message: String,
    pub color: LabelColor,
}

/// The mathematical value of a [`ReportLabel`].
pub struct ReportLabelView {
    pub span: ErrorSpanView,
    pub message: Seq<char>,
    pub color: LabelColor,
}

impl View for ReportLabel {
    type V = ReportLabelView;

    open spec fn view(&self) -> ReportLabelView {
        ReportLabelView { span: self.span@, message: self.message@, color: self.color }
    }
}

impl Clone for ReportLabel {
    fn clone(&self) -> (l: Self)
        ensures
            l@ == self@,
    {
        ReportLabel {
            span: self.span.clone(),
            message: self.message.clone(),
            color: self.color,
        }
    }
}

/// The plain description of a report on one diagnostic.
#[derive(Debug, PartialEq, Eq)]
pub struct ReportData {
    /// The primary span of the report.
    pub span: ErrorSpan,
    /// The stable code, as shown.
    pub code: String,
    /// The headline.
    pub message: String,
    /// The labels, the primary one first.
    pub labels: Vec<ReportLabel>,
    /// Advice on a remedy.
    pub help: Option<String>,
    /// A further remark.
    pub note: Option<String>,
}

/// The mathematical value of a [`ReportData`].
pub struct ReportView {
    pub span: ErrorSpanView,
    pub code: Seq<char>,
    pub message: Seq<char>,
    pub labels: Seq<ReportLabelView>,
    pub help: Option<Seq<char>>,
    pub note: Option<Seq<char>>,
}

/// The value of an optional string.
pub open spec fn option_text(t: Option<String>) -> Option<Seq<char>> {
    match t {
        Some(s) => Some(s@),
        None => None,
    }
}

impl View for ReportData {
    type V = ReportView;

    open spec fn view(&self) -> ReportView {
        ReportView {
            span: self.span@,
            code: self.code@,
            message: self.message@,
            labels: self.labels@.map_values(|l: ReportLabel| l@),
            help: option_text(self.help),
            note: option_text(self.note),
        }
    }
}

/// A copy of an optional string.
fn clone_option(t: &Option<String>) -> (r: Option<String>)
    ensures
        option_text(r) == option_text(*t),
{
    match t {
        Some(s) => Some(s.clone()),
        None => None,
    }
}

impl Clone for ReportData {
    fn clone(&self) -> (d: Self)
        ensures
            d@ == self@,
    {
        let mut labels: Vec<ReportLabel> = Vec::new();
        let mut i: usize = 0;
        while i < self.labels.len()
            invariant
                i <= self.labels.len(),
                labels.len() == i,
                forall|k: int| 0 <= k < i ==> labels[k]@ == self.labels[k]@,
            decreases self.labels.len() - i,
        {
            labels.push(self.labels[i].clone());
            i += 1;
        }
        let d = ReportData {
            span: self.span.clone(),
            code: self.code.clone(),
            message: self.message.clone(),
            labels,
            help: clone_option(&self.help),
            note: clone_option(&self.note),
        };
        assert(d@.labels =~= self@.labels);
        d
    }
}

/// What every diagnostic of the front end offers.
pub trait CarbideError: Sized {
    /// The stable code of the diagnostic.
    spec fn code_of(&self) -> ErrCode;

    /// The message of the diagnostic.
    spec fn message_text(&self) -> Seq<char>;

    /// The advice that goes with the diagnostic, if any.
    spec fn help_text(&self) -> Option<Seq<char>>;

    /// The report on the diagnostic for the source `src` named `file`, or
    /// `None` where an offset of the diagnostic does not fit the machine's
    /// address width.
    spec fn report_of(&self, file: Seq<char>, src: Seq<char>) -> Option<ReportView>;

    /// The stable code of the diagnostic.
    fn code(&self) -> (c: ErrCode)
        ensures
            c == self.code_of(),
    ;

    /// The message of the diagnostic.
    fn message(&self) -> (m: String)
        ensures
            m@ == self.message_text(),
    ;

    /// Builds the description of a report on the diagnostic.
    fn report(&self, file: &str, src: &str) -> (r: Result<ReportData, Self>)
        ensures
            match r {
                Ok(d) => self.report_of(file@, src@) == Some(d@),
                Err(_) => self.report_of(file@, src@) is None,
            },
    ;

    /// The advice that goes with the diagnostic, if any.
    fn help(&self) -> (h: Option<&'static str>)
        ensures
            match h {
                Some(t) => self.help_text() == Some(t@),
                None => self.help_text() is None,
            },
    ;
}

/// A boxed diagnostic is the diagnostic in the box.
impl<T: CarbideError> CarbideError for Box<T> {
    open spec fn code_of(&self) -> ErrCode {
        (**self).code_of()
    }

    open spec fn message_text(&self) -> Seq<char> {
        (**self).message_text()
    }

    open spec fn help_text(&self) -> Option<Seq<char>> {
        (**self).help_text()
    }

    open spec fn report_of(&self, file: Seq<char>, src: Seq<char>) -> Option<ReportView> {
        (**self).report_of(file, src)
    }

    fn code(&self) -> (c: ErrCode) {
        (**self).code()
    }

    fn message(&self) -> (m: String) {
        (**self).message()
    }

    fn report(&self, file: &str, src: &str) -> (r: Result<ReportData, Self>) {
        match (**self).report(file, src) {
            Ok(d) => Ok(d),
            Err(e) => Err(Box::new(e)),
        }
    }

    fn help(&self) -> (h: Option<&'static str>) {
        (**self).help()
    }
}

} // verus!
