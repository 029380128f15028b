use paper_sage::config::Config;
use paper_sage::grader::ai_client::Event;
use paper_sage::grader::ai_client::Phase;
use paper_sage::grader::failed_result;
use paper_sage::grader::ai_client::ErrorKind;
use paper_sage::grader::ai_client::GradingError;
use paper_sage::grader::take_cached;
use paper_sage::grader::BatchAction;
use paper_sage::grader::Grader;
use paper_sage::models::FileContent;
use paper_sage::models::GradingResult;
use paper_sage::models::GradingStrategy;
use paper_sage::models::OllamaResponse;
use paper_sage::models::OpenAIChoice;
use paper_sage::models::OpenAIMessage;
use paper_sage::models::OpenAIResponse;
use paper_sage::models::StudentSubmission;

const CHAT: &str = "https://api.openai.com/v1/chat/completions";
const LOCAL: &str = "http://localhost:11434";

fn config() -> Config {
    Config {
        task_description: "Sum two numbers".to_string(),
        evaluation_criteria: vec!["Correct".to_string()],
        teacher_comment: None,
        grading_strategy: GradingStrategy::default(),
    }
}

fn submission(name: &str) -> StudentSubmission {
    StudentSubmission::new(
        name.to_string(),
        vec![FileContent {
            filename: format!("{}/main.py", name),
            content: format!("# by {}", name),
            file_type: "py".to_string(),
        }],
    )
}

fn reply_for(key: &str, score: u32) -> String {
    format!(
        "{{\"filename\":\"{}\",\"correctness\":{},\"style\":{},\"edge_cases\":{},\"comment\":\"ok\"}}",
        key, score, score, score
    )
}

fn chat_reply(content: String) -> Event {
    Event::ChatReply(OpenAIResponse {
        choices: vec![OpenAIChoice {
            message: OpenAIMessage { role: "assistant".to_string(), content },
        }],
    })
}

fn result(key: &str, total: i64) -> GradingResult {
    GradingResult {
        filename: key.to_string(),
        correctness: total,
        style: total,
        edge_cases: total,
        total,
        comment: format!("cached {}", key),
    }
}

#[test]
fn empty_batch_is_over_at_once() {
    let grader = Grader::new(CHAT, &config(), None).unwrap();
    let run = grader.grade_submissions(Vec::new());
    let (run, action) = grader.next_action(run, Event::Start);
    assert!(matches!(action, BatchAction::Done));
    assert!(run.results.is_empty());
}

#[test]
fn submissions_are_graded_one_after_the_other() {
    let grader = Grader::new(CHAT, &config(), None).unwrap();
    let run = grader.grade_submissions(vec![submission("alice"), submission("bob")]);
    let (run, action) = grader.next_action(run, Event::Start);
    match action {
        BatchAction::SendChat(call) => assert!(call.body.messages[1].content.contains("# by alice")),
        other => panic!("unexpected action: {:?}", other),
    }
    assert_eq!(run.results.len(), 0);
    let (run, action) = grader.next_action(run, chat_reply(reply_for("alice/", 90)));
    match action {
        BatchAction::SendChat(call) => assert!(call.body.messages[1].content.contains("# by bob")),
        other => panic!("unexpected action: {:?}", other),
    }
    assert_eq!(run.results.len(), 1);
    let (run, action) = grader.next_action(run, chat_reply(reply_for("bob/", 50)));
    assert!(matches!(action, BatchAction::Done));
    assert_eq!(run.results.len(), 2);
    assert_eq!(run.results[0].filename, "alice/");
    assert_eq!(run.results[0].total, 90_000);
    assert_eq!(run.results[1].filename, "bob/");
    assert_eq!(run.results[1].total, 50_000);
}

#[test]
fn failed_call_leaves_a_result_of_zeros_and_the_batch_goes_on() {
    let grader = Grader::new(CHAT, &config(), None).unwrap();
    let run = grader.grade_submissions(vec![submission("alice"), submission("bob"), submission("carol")]);
    let (run, _) = grader.next_action(run, Event::Start);
    let (run, _) = grader.next_action(run, chat_reply(reply_for("alice/", 90)));
    let (run, action) = grader.next_action(run, Event::HttpError { body: "server on fire".to_string() });
    assert!(matches!(action, BatchAction::SendChat(_)));
    let (run, action) = grader.next_action(run, chat_reply(reply_for("carol/", 70)));
    assert!(matches!(action, BatchAction::Done));
    assert_eq!(run.results.len(), 3);
    assert_eq!(run.results[0].total, 90_000);
    let failed = &run.results[1];
    assert_eq!(failed.filename, "bob/");
    assert_eq!(failed.correctness, 0);
    assert_eq!(failed.style, 0);
    assert_eq!(failed.edge_cases, 0);
    assert_eq!(failed.total, 0);
    assert_eq!(failed.comment, "Error during grading: OpenAI API error: server on fire");
    assert_eq!(run.results[2].total, 70_000);
}

#[test]
fn reply_that_cannot_be_read_leaves_a_result_of_zeros() {
    let grader = Grader::new(LOCAL, &config(), None).unwrap();
    let run = grader.grade_submissions(vec![submission("alice")]);
    let (run, action) = grader.next_action(run, Event::Start);
    assert!(matches!(action, BatchAction::SendGenerate(_)));
    let (run, action) = grader.next_action(
        run,
        Event::GenerateReply(OllamaResponse { response: "no grade today".to_string() }),
    );
    assert!(matches!(action, BatchAction::Done));
    assert_eq!(run.results.len(), 1);
    assert_eq!(run.results[0].filename, "alice/");
    assert_eq!(run.results[0].total, 0);
    assert_eq!(run.results[0].comment, "Error during grading: No valid JSON found in response");
}

#[test]
fn rate_limit_makes_the_batch_wait() {
    let grader = Grader::new(CHAT, &config(), None).unwrap();
    let run = grader.grade_submissions(vec![submission("alice")]);
    let (run, _) = grader.next_action(run, Event::Start);
    let (run, action) = grader.next_action(run, Event::HttpError { body: "rate_limit_exceeded".to_string() });
    assert!(matches!(action, BatchAction::Sleep { seconds: 20 }));
    assert_eq!(run.exchange.phase, Phase::Backoff);
    let (run, action) = grader.next_action(run, Event::Slept);
    assert!(matches!(action, BatchAction::SendChat(_)));
    assert_eq!(run.exchange.attempts, 2);
    assert_eq!(run.results.len(), 0);
}

#[test]
fn unreachable_local_backend_gives_mock_results_for_the_whole_batch() {
    let grader = Grader::new(LOCAL, &config(), None).unwrap();
    let run = grader.grade_submissions(vec![submission("alice"), submission("bob")]);
    let (run, _) = grader.next_action(run, Event::Start);
    let (run, _) = grader.next_action(run, Event::Unreachable { reason: "refused".to_string() });
    let (run, action) = grader.next_action(run, Event::Unreachable { reason: "refused".to_string() });
    assert!(matches!(action, BatchAction::Done));
    assert_eq!(run.results.len(), 2);
    assert_eq!(run.results[0].filename, "alice/");
    assert_eq!(run.results[1].filename, "bob/");
    assert_eq!(run.results[1].total, 730);
}

#[test]
fn resuming_with_the_results_of_a_full_pass_sends_nothing() {
    let grader = Grader::new(CHAT, &config(), None).unwrap();
    let run = grader.grade_submissions(vec![submission("alice"), submission("bob")]);
    let (run, _) = grader.next_action(run, Event::Start);
    let (run, _) = grader.next_action(run, chat_reply(reply_for("alice/", 90)));
    let (run, action) = grader.next_action(run, Event::HttpError { body: "broken".to_string() });
    assert!(matches!(action, BatchAction::Done));
    let first_pass = run.results;

    let resumed = grader.resume_grading(vec![submission("alice"), submission("bob")], first_pass.clone());
    let (resumed, action) = grader.next_action(resumed, Event::Start);
    assert!(matches!(action, BatchAction::Done));
    assert_eq!(resumed.results.len(), first_pass.len());
    for (again, before) in resumed.results.iter().zip(first_pass.iter()) {
        assert_eq!(again.filename, before.filename);
        assert_eq!(again.correctness, before.correctness);
        assert_eq!(again.style, before.style);
        assert_eq!(again.edge_cases, before.edge_cases);
        assert_eq!(again.total, before.total);
        assert_eq!(again.comment, before.comment);
    }
    assert!(resumed.cache.is_empty());
}

#[test]
fn resuming_grades_only_what_has_no_earlier_result() {
    let grader = Grader::new(CHAT, &config(), None).unwrap();
    let existing = vec![result("carol/", 10_000), result("alice/", 20_000), result("zoe/", 30_000)];
    let run = grader.resume_grading(vec![submission("alice"), submission("bob"), submission("carol")], existing);
    let (run, action) = grader.next_action(run, Event::Start);
    match action {
        BatchAction::SendChat(call) => assert!(call.body.messages[1].content.contains("# by bob")),
        other => panic!("unexpected action: {:?}", other),
    }
    assert_eq!(run.results.len(), 1);
    assert_eq!(run.results[0].comment, "cached alice/");
    let (run, action) = grader.next_action(run, chat_reply(reply_for("bob/", 60)));
    assert!(matches!(action, BatchAction::Done));
    assert_eq!(run.results.len(), 3);
    assert_eq!(run.results[1].total, 60_000);
    assert_eq!(run.results[2].comment, "cached carol/");
    assert_eq!(run.cache.len(), 1);
    assert_eq!(run.cache[0].filename, "zoe/");
}

#[test]
fn the_last_of_several_earlier_results_counts_and_all_of_them_leave() {
    let mut cache = vec![result("a/", 1), result("b/", 2), result("a/", 3), result("c/", 4)];
    let taken = take_cached(&mut cache, "a/").unwrap();
    assert_eq!(taken.total, 3);
    assert_eq!(cache.len(), 2);
    assert_eq!(cache[0].filename, "b/");
    assert_eq!(cache[1].filename, "c/");
    assert!(take_cached(&mut cache, "a/").is_none());
    assert_eq!(cache.len(), 2);
}

#[test]
fn failure_is_recorded_with_its_reason() {
    let error = GradingError { kind: ErrorKind::Backend, message: "boom".to_string() };
    let recorded = failed_result("dave/".to_string(), &error);
    assert_eq!(recorded.filename, "dave/");
    assert_eq!(recorded.total, 0);
    assert_eq!(recorded.comment, "Error during grading: boom");
    let silent = GradingError { kind: ErrorKind::Backend, message: String::new() };
    assert!(!failed_result("dave/".to_string(), &silent).comment.is_empty());
}
