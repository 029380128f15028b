//! The result that stands in when the local backend cannot be reached.

use crate::models::weighted_total_of;
use crate::models::GradingResult;
use crate::models::GradingResultView;
use crate::models::GradingStrategy;
use vstd::prelude::*;

verus! {

/// The part scores of the mock result, in thousandths: `0.8`, `0.7`, `0.6`.
pub const MOCK_CORRECTNESS: i64 = 800;

pub const MOCK_STYLE: i64 = 700;

pub const MOCK_EDGE_CASES: i64 = 600;

/// The comment of the mock result.
pub open spec fn mock_comment() -> Seq<char> {
    "Mock grading response - AI API was unavailable. This is a sample response to demonstrate the system functionality."@
}

/// The mock result for the submission `filename`: fixed part scores, and their
/// total under the standard strategy.
pub open spec fn mock_result_of(filename: Seq<char>) -> GradingResultView {
    GradingResultView {
        filename,
        correctness: MOCK_CORRECTNESS as int,
        style: MOCK_STYLE as int,
        edge_cases: MOCK_EDGE_CASES as int,
        total: weighted_total_of(
            MOCK_CORRECTNESS as int,
            MOCK_STYLE as int,
            MOCK_EDGE_CASES as int,
            GradingStrategy::standard(),
        ),
        comment: mock_comment(),
    }
}

/// The total of the mock result is `0.73`.
pub proof fn lemma_mock_total(filename: Seq<char>)
    ensures
        mock_result_of(filename).total == 730,
{
}

/// The mock result for the submission `filename`.
pub fn generate_mock_result(filename: &str) -> (r: GradingResult)
    ensures
        r@ == mock_result_of(filename@),
{
    let strategy = GradingStrategy { correctness_weight: 500, style_weight: 300, edge_cases_weight: 200 };
    let total = strategy.total(MOCK_CORRECTNESS, MOCK_STYLE, MOCK_EDGE_CASES);
    GradingResult {
        filename: String::from_str(filename),
        correctness: MOCK_CORRECTNESS,
        style: MOCK_STYLE,
        edge_cases: MOCK_EDGE_CASES,
        total,
        comment: String::from_str(
            "Mock grading response - AI API was unavailable. This is a sample response to demonstrate the system functionality.",
        ),
    }
}

} // verus!
