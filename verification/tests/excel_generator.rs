use paper_sage::excel_generator::ExcelGenerator;
use paper_sage::models::GradingResult;

#[test]
fn report_has_a_header_and_a_line_for_each_result() {
    let results = vec![
        GradingResult {
            filename: "alice/".to_string(),
            correctness: 90_000,
            style: 80_000,
            edge_cases: 70_000,
            total: 83_000,
            comment: "Good, but \"main\" is long".to_string(),
        },
        GradingResult {
            filename: "bob/".to_string(),
            correctness: 800,
            style: 700,
            edge_cases: 600,
            total: 730,
            comment: String::new(),
        },
    ];
    assert_eq!(
        ExcelGenerator::new().generate_report(&results),
        "Filename,Correctness,Style,EdgeCases,Total,Comment\n\"alice/\",90.00,80.00,70.00,83.00,\"Good, but \"\"main\"\" is long\"\n\"bob/\",0.80,0.70,0.60,0.73,\"\"\n"
    );
}

#[test]
fn report_without_results_is_the_header() {
    assert_eq!(
        ExcelGenerator::new().generate_report(&Vec::new()),
        "Filename,Correctness,Style,EdgeCases,Total,Comment\n"
    );
}

#[test]
fn report_goes_to_a_csv_file() {
    let generator = ExcelGenerator::new();
    assert_eq!(generator.report_path("results.xlsx"), "results.csv");
    assert_eq!(generator.report_path("out/results.txt"), "out/results.txt");
    assert_eq!(generator.report_path("a.xlsx/b.xlsx"), "a.csv/b.csv");
}
