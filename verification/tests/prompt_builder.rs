use paper_sage::config::AppConfig;
use paper_sage::config::PromptConfig;
use paper_sage::grader::prompt_builder::build_grading_prompt;
use paper_sage::grader::prompt_builder::render_criteria;
use paper_sage::models::GradingRequest;

fn request(teacher_comment: Option<&str>) -> GradingRequest {
    GradingRequest {
        filename: "alice/".to_string(),
        content: "print(1)".to_string(),
        task_description: "Sum two numbers".to_string(),
        evaluation_criteria: vec!["Correct".to_string(), "Readable".to_string()],
        teacher_comment: teacher_comment.map(|c| c.to_string()),
    }
}

#[test]
fn built_in_template_is_filled() {
    let prompt = build_grading_prompt(&request(None), None);
    assert_eq!(
        prompt,
        "Please grade the following student submission according to the task description and evaluation criteria.\n\nTask Description:\nSum two numbers\n\nEvaluation Criteria:\n1. Correct\n2. Readable\n\nStudent Submission (File: alice/):\n```\nprint(1)\n```\n\nPlease provide your evaluation in the following JSON format:\n{{\n    \"filename\": \"alice/\",\n    \"correctness\": <score 0-100>,\n    \"style\": <score 0-100>,\n    \"edge_cases\": <score 0-100>,\n    \"total\": <weighted average score 0-100>,\n    \"comment\": \"<detailed feedback>\"\n}}\n\nNote: The total score will be calculated automatically using the grading weights."
    );
}

#[test]
fn teacher_comment_follows_the_criteria() {
    let prompt = build_grading_prompt(&request(Some("Be strict")), None);
    assert!(prompt.contains("Evaluation Criteria:\n1. Correct\n2. Readable\nTeacher Comment: Be strict\n\nStudent Submission"));
}

#[test]
fn template_of_the_settings_takes_the_place_of_the_built_in_one() {
    let settings = AppConfig {
        ai: None,
        prompt: Some(PromptConfig {
            template: Some("T={task_description};C={criteria};K={teacher_comment};F={filename};F={filename};X={content}".to_string()),
        }),
    };
    let prompt = build_grading_prompt(&request(Some("ok")), Some(&settings));
    assert_eq!(
        prompt,
        "T=Sum two numbers;C=1. Correct\n2. Readable;K=\nTeacher Comment: ok;F=alice/;F=alice/;X=print(1)"
    );
}

#[test]
fn settings_without_a_template_fall_back_to_the_built_in_one() {
    let without_prompt = AppConfig { ai: None, prompt: None };
    let without_template = AppConfig { ai: None, prompt: Some(PromptConfig { template: None }) };
    let expected = build_grading_prompt(&request(None), None);
    assert_eq!(build_grading_prompt(&request(None), Some(&without_prompt)), expected);
    assert_eq!(build_grading_prompt(&request(None), Some(&without_template)), expected);
}

#[test]
fn placeholders_are_filled_one_after_the_other() {
    let settings = AppConfig {
        ai: None,
        prompt: Some(PromptConfig { template: Some("{task_description}|{content}".to_string()) }),
    };
    let mut asked = request(None);
    asked.task_description = "see {content}".to_string();
    asked.content = "body".to_string();
    assert_eq!(build_grading_prompt(&asked, Some(&settings)), "see body|body");
}

#[test]
fn criteria_are_numbered_from_one() {
    let none: Vec<String> = Vec::new();
    assert_eq!(render_criteria(&none), Vec::<char>::new());
    let one = vec!["Only".to_string()];
    assert_eq!(render_criteria(&one).into_iter().collect::<String>(), "1. Only");
    let many: Vec<String> = (0..12).map(|i| format!("c{}", i)).collect();
    let text: String = render_criteria(&many).into_iter().collect();
    assert!(text.starts_with("1. c0\n2. c1\n"));
    assert!(text.ends_with("\n10. c9\n11. c10\n12. c11"));
}
