use paper_sage::config::AppConfig;
use paper_sage::config::Config;
use paper_sage::grader::ai_client::Backend;
use paper_sage::grader::ai_client::Event;
use paper_sage::grader::BatchAction;
use paper_sage::file_processor::ScannedFile;
use paper_sage::models::GradingStrategy;
use paper_sage::PaperSage;
use paper_sage::PaperSageError;

fn config(weights: (u32, u32, u32)) -> Config {
    Config {
        task_description: "Sum two numbers".to_string(),
        evaluation_criteria: vec!["Correct".to_string()],
        teacher_comment: Some("Be kind".to_string()),
        grading_strategy: GradingStrategy {
            correctness_weight: weights.0,
            style_weight: weights.1,
            edge_cases_weight: weights.2,
        },
    }
}

fn settings() -> AppConfig {
    AppConfig { ai: None, prompt: None }
}

#[test]
fn valid_configuration_makes_an_application() {
    let app = PaperSage::new(config((500, 300, 200)), settings(), None).unwrap();
    assert_eq!(app.grader.ai_client.model_endpoint, "https://api.openai.com/v1/chat/completions");
    assert_eq!(app.grader.ai_client.backend, Backend::ChatCompletion);
    assert_eq!(app.config().task_description, "Sum two numbers");
    let local = PaperSage::new(config((500, 300, 200)), settings(), Some("http://localhost:11434".to_string())).unwrap();
    assert_eq!(local.grader.ai_client.backend, Backend::Generate);
}

#[test]
fn invalid_configuration_is_refused() {
    match PaperSage::new(config((500, 300, 300)), settings(), None) {
        Err(PaperSageError::Config(reason)) => {
            assert_eq!(reason, "Grading weights must sum to 1.0, got: 1.100")
        }
        other => panic!("unexpected outcome: {:?}", other.map(|_| ())),
    }
}

#[test]
fn application_carries_a_tree_through_to_the_report() {
    let app = PaperSage::new(config((500, 300, 200)), settings(), Some("http://localhost:11434".to_string())).unwrap();
    let scanned = vec![ScannedFile { path: "alice/main.py".to_string(), content: Some("print(1)".to_string()) }];
    let submissions = app.process_files("root", &scanned);
    assert_eq!(submissions.len(), 1);
    let run = app.grade_submissions(submissions);
    let (run, action) = app.grader.next_action(run, Event::Start);
    match action {
        BatchAction::SendGenerate(call) => {
            assert!(call.body.prompt.contains("=== FILE: alice/main.py ==="));
            assert!(call.body.prompt.contains("\nTeacher Comment: Be kind\n"));
        }
        other => panic!("unexpected action: {:?}", other),
    }
    let (run, action) = app.grader.next_action(run, Event::Unreachable { reason: "refused".to_string() });
    assert!(matches!(action, BatchAction::Done));
    let report = app.generate_reports(&run.results);
    assert!(report.ends_with("\"alice/\",0.80,0.70,0.60,0.73,\"Mock grading response - AI API was unavailable. This is a sample response to demonstrate the system functionality.\"\n"));
    let resumed = app.resume_grading(app.process_files("root", &scanned), run.results.clone());
    let (resumed, action) = app.grader.next_action(resumed, Event::Start);
    assert!(matches!(action, BatchAction::Done));
    assert_eq!(resumed.results[0].total, 730);
}

#[test]
fn errors_name_the_part_that_failed() {
    assert_eq!(PaperSageError::Config("x".to_string()).message(), "Configuration error: x");
    assert_eq!(PaperSageError::FileProcessing("x".to_string()).message(), "File processing error: x");
    assert_eq!(PaperSageError::Grading("x".to_string()).message(), "Grading error: x");
    assert_eq!(PaperSageError::ReportGeneration("x".to_string()).message(), "Report generation error: x");
}
