//! What is said of the outcomes of a delivery.

use vstd::prelude::*;
use crate::text::{push_str, string_of};
use crate::upload::{Outcome, UploadResult};

verus! {

/// How grave a line of the report is.
#[derive(Clone, Copy, Debug, PartialEq, Eq)]
pub enum Level {
    Info,
    Error,
}

/// A line of the report.
#[derive(Clone, Debug, PartialEq, Eq)]
pub struct Line {
    pub level: Level,
    pub text: String,
}

/// The mathematical content of a line.
pub struct LineView {
    pub level: Level,
    pub text: Seq<char>,
}

impl View for Line {
    type V = LineView;

    open spec fn view(&self) -> LineView {
        LineView { level: self.level, text: self.text@ }
    }
}

impl DeepView for Line {
    type V = LineView;

    open spec fn deep_view(&self) -> LineView {
        self@
    }
}

/// A line of information about a value that may be missing: the label and the
/// value, or no line.
pub open spec fn labelled(label: Seq<char>, value: Option<Seq<char>>) -> Seq<LineView> {
    match value {
        Some(v) => seq![LineView { level: Level::Info, text: label + v }],
        None => Seq::empty(),
    }
}

/// The lines for one outcome. A failure is reported by its message alone. Of
/// a success the address, the deletion address and the file path are reported,
/// each where there is one.
pub open spec fn lines_of(outcome: Outcome) -> Seq<LineView> {
    match outcome.error_message {
        Some(why) => seq![LineView { level: Level::Error, text: "Failed to upload: "@ + why }],
        None => labelled("Uploaded URL: "@, outcome.url) + labelled(
            "Delete URL: "@,
            outcome.deletion_url,
        ) + labelled("File path: "@, outcome.file_path),
    }
}

/// The lines for the first `n` outcomes, in their order.
pub open spec fn report_of(outcomes: Seq<Outcome>, n: int) -> Seq<LineView>
    decreases n,
{
    if n <= 0 {
        Seq::empty()
    } else {
        report_of(outcomes, n - 1) + lines_of(outcomes[n - 1])
    }
}

fn push_labelled(report: &mut Vec<Line>, label: &str, value: &Option<String>)
    ensures
        final(report).deep_view() == old(report).deep_view() + labelled(label@, value.deep_view()),
{
    let ghost before = report.deep_view();
    match value {
        Some(v) => {
            let mut text: Vec<char> = Vec::new();
            push_str(&mut text, label);
            push_str(&mut text, v.as_str());
            report.push(Line { level: Level::Info, text: string_of(&text) });
            assert(report.deep_view() =~= before + labelled(label@, value.deep_view()));
        },
        None => {
            assert(report.deep_view() =~= before + labelled(label@, value.deep_view()));
        },
    }
}

fn push_lines(report: &mut Vec<Line>, result: &UploadResult)
    ensures
        final(report).deep_view() == old(report).deep_view() + lines_of(result@),
{
    let ghost before = report.deep_view();
    match &result.error_message {
        Some(why) => {
            let mut text: Vec<char> = Vec::new();
            push_str(&mut text, "Failed to upload: ");
            push_str(&mut text, why.as_str());
            report.push(Line { level: Level::Error, text: string_of(&text) });
            assert(report.deep_view() =~= before + lines_of(result@));
        },
        None => {
            push_labelled(report, "Uploaded URL: ", &result.url);
            push_labelled(report, "Delete URL: ", &result.deletion_url);
            push_labelled(report, "File path: ", &result.file_path);
            assert(report.deep_view() =~= before + lines_of(result@));
        },
    }
}

/// Reports the outcomes of a delivery, line by line in the order of the
/// outcomes.
pub fn describe(results: &Vec<UploadResult>) -> (report: Vec<Line>)
    ensures
        report.deep_view() == report_of(results.deep_view(), results.len() as int),
{
    let mut report: Vec<Line> = Vec::new();
    let mut i: usize = 0;
    assert(report.deep_view() =~= Seq::empty());
    while i < results.len()
        invariant
            i <= results.len(),
            report.deep_view() == report_of(results.deep_view(), i as int),
        decreases results.len() - i,
    {
        assert(results.deep_view()[i as int] == results@[i as int]@);
        push_lines(&mut report, &results[i]);
        i += 1;
    }
    report
}

} // verus!
