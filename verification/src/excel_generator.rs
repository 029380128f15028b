//! The report of a run: a table of the results as comma-separated text.

use crate::decimal::hundredths_text;
use crate::decimal::push_hundredths;
use crate::models::views_of;
use crate::models::GradingResult;
use crate::models::GradingResultView;
use crate::text::chars_of;
use crate::text::extend_chars;
use crate::text::replace;
use crate::text::replace_all;
use crate::text::string_of;
use vstd::prelude::*;

verus! {

/// The first line of a report.
pub open spec fn report_header() -> Seq<char> {
    "Filename,Correctness,Style,EdgeCases,Total,Comment\n"@
}

/// The line of a report for `result`: the file name in quotation marks, the
/// four scores with two digits after the point, and the comment in quotation
/// marks, with every quotation mark inside it doubled.
pub open spec fn report_row(result: GradingResultView) -> Seq<char> {
    seq!['"'] + result.filename + seq!['"', ','] + report_scores(result) + seq!['"'] + replace_all(
        result.comment,
        seq!['"'],
        seq!['"', '"'],
    ) + seq!['"', '\n']
}

/// The lines of a report for `results`, one after the other.
pub open spec fn report_rows(results: Seq<GradingResultView>) -> Seq<char>
    decreases results.len(),
{
    if results.len() == 0 {
        Seq::empty()
    } else {
        report_rows(results.drop_last()) + report_row(results.last())
    }
}

/// The report for `results`: the header and a line for each result.
pub open spec fn report_of(results: Seq<GradingResultView>) -> Seq<char> {
    report_header() + report_rows(results)
}

/// The path of the report that belongs to `output_path`: the same path with
/// `.csv` in place of every `.xlsx`.
pub open spec fn report_path_of(output_path: Seq<char>) -> Seq<char> {
    replace_all(output_path, ".xlsx"@, ".csv"@)
}

/// The scores of a line of a report, with the commas between and after them.
pub open spec fn report_scores(result: GradingResultView) -> Seq<char> {
    hundredths_text(result.correctness) + seq![','] + hundredths_text(result.style) + seq![',']
        + hundredths_text(result.edge_cases) + seq![','] + hundredths_text(result.total) + seq![
        ',',
    ]
}

/// Appends the scores of a line of a report to `report`.
fn push_scores(report: &mut Vec<char>, result: &GradingResult)
    ensures
        final(report)@ == old(report)@ + report_scores(result@),
{
    push_hundredths(report, result.correctness);
    report.push(',');
    push_hundredths(report, result.style);
    report.push(',');
    push_hundredths(report, result.edge_cases);
    report.push(',');
    push_hundredths(report, result.total);
    report.push(',');
    assert(report@ =~= old(report)@ + report_scores(result@));
}

/// Appends the line of a report for `result` to `report`.
fn push_row(report: &mut Vec<char>, result: &GradingResult)
    ensures
        final(report)@ == old(report)@ + report_row(result@),
{
    let mut quote: Vec<char> = Vec::new();
    quote.push('"');
    let mut doubled: Vec<char> = Vec::new();
    doubled.push('"');
    doubled.push('"');
    assert(quote@ =~= seq!['"']);
    assert(doubled@ =~= seq!['"', '"']);
    let comment = replace(&chars_of(result.comment.as_str()), &quote, &doubled);
    report.push('"');
    extend_chars(report, &chars_of(result.filename.as_str()));
    report.push('"');
    report.push(',');
    let ghost named = report@;
    assert(named =~= old(report)@ + (seq!['"'] + result@.filename + seq!['"', ',']));
    push_scores(report, result);
    let ghost scored = report@;
    report.push('"');
    extend_chars(report, &comment);
    report.push('"');
    report.push('\n');
    assert(report@ =~= scored + (seq!['"'] + comment@ + seq!['"', '\n']));
    assert(report_row(result@) =~= (seq!['"'] + result@.filename + seq!['"', ',']) + report_scores(
        result@,
    ) + (seq!['"'] + comment@ + seq!['"', '\n']));
    assert(report@ =~= old(report)@ + report_row(result@));
}

/// The writer of reports.
#[derive(Clone, Copy, Debug)]
pub struct ExcelGenerator;

impl ExcelGenerator {
    /// A writer of reports.
    pub fn new() -> Self {
        ExcelGenerator
    }

    /// The path of the report that belongs to `output_path`.
    pub fn report_path(&self, output_path: &str) -> (path: String)
        ensures
            path@ == report_path_of(output_path@),
    {
        let path = replace(&chars_of(output_path), &chars_of(".xlsx"), &chars_of(".csv"));
        string_of(&path)
    }

    /// The report for `results`.
    pub fn generate_report(&self, results: &Vec<GradingResult>) -> (report: String)
        ensures
            report@ == report_of(views_of(results@)),
    {
        let mut report = chars_of("Filename,Correctness,Style,EdgeCases,Total,Comment\n");
        let mut i: usize = 0;
        assert(views_of(results@.subrange(0, 0)) =~= Seq::<GradingResultView>::empty());
        assert(report@ =~= report_of(views_of(results@.subrange(0, 0))));
        while i < results.len()
            invariant
                i <= results@.len(),
                report@ == report_of(views_of(results@.subrange(0, i as int))),
            decreases results@.len() - i,
        {
            let result = &results[i];
            let ghost before = report@;
            push_row(&mut report, result);
            proof {
                let next = views_of(results@.subrange(0, i + 1));
                assert(next.drop_last() =~= views_of(results@.subrange(0, i as int)));
                assert(next.last() == result@);
                assert(report@ =~= before + report_row(result@));
                assert(report_header() + (report_rows(next.drop_last()) + report_row(result@))
                    =~= before + report_row(result@));
            }
            i = i + 1;
        }
        assert(results@.subrange(0, i as int) =~= results@);
        string_of(&report)
    }
}

} // verus!
