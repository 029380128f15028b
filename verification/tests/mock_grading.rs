use paper_sage::grader::mock_grading::generate_mock_result;

#[test]
fn mock_result_has_fixed_scores() {
    let result = generate_mock_result("alice/");
    assert_eq!(result.filename, "alice/");
    assert_eq!(result.correctness, 800);
    assert_eq!(result.style, 700);
    assert_eq!(result.edge_cases, 600);
    assert_eq!(result.total, 730);
    assert_eq!(
        result.comment,
        "Mock grading response - AI API was unavailable. This is a sample response to demonstrate the system functionality."
    );
}
