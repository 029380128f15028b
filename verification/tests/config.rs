use paper_sage::config::blank;
use paper_sage::config::is_whitespace;
use paper_sage::config::Config;
use paper_sage::config::ConfigError;
use paper_sage::models::GradingStrategy;

fn config_with(task: &str, criteria: Vec<&str>, weights: (u32, u32, u32)) -> Config {
    Config {
        task_description: task.to_string(),
        evaluation_criteria: criteria.into_iter().map(|c| c.to_string()).collect(),
        teacher_comment: None,
        grading_strategy: GradingStrategy {
            correctness_weight: weights.0,
            style_weight: weights.1,
            edge_cases_weight: weights.2,
        },
    }
}

#[test]
fn weights_that_sum_to_one_pass() {
    let config = config_with("Sum two numbers", vec!["Correct"], (500, 300, 200));
    assert_eq!(config.validate(), Ok(()));
}

#[test]
fn weights_that_sum_to_more_than_one_fail() {
    let config = config_with("Sum two numbers", vec!["Correct"], (500, 300, 300));
    assert_eq!(config.validate(), Err(ConfigError::UnbalancedWeights { total: 1100 }));
}

#[test]
fn weights_within_a_hundredth_of_one_pass() {
    assert_eq!(config_with("t", vec!["c"], (500, 300, 190)).validate(), Ok(()));
    assert_eq!(config_with("t", vec!["c"], (500, 300, 210)).validate(), Ok(()));
    assert_eq!(
        config_with("t", vec!["c"], (500, 300, 189)).validate(),
        Err(ConfigError::UnbalancedWeights { total: 989 })
    );
    assert_eq!(
        config_with("t", vec!["c"], (500, 300, 211)).validate(),
        Err(ConfigError::UnbalancedWeights { total: 1011 })
    );
}

#[test]
fn weights_beyond_the_type_are_refused() {
    assert_eq!(
        config_with("t", vec!["c"], (u32::MAX, u32::MAX, u32::MAX)).validate(),
        Err(ConfigError::UnbalancedWeights { total: u32::MAX })
    );
}

#[test]
fn blank_task_description_fails() {
    assert_eq!(
        config_with("", vec!["c"], (500, 300, 200)).validate(),
        Err(ConfigError::EmptyTaskDescription)
    );
    assert_eq!(
        config_with(" \t\n\u{3000}", vec!["c"], (500, 300, 200)).validate(),
        Err(ConfigError::EmptyTaskDescription)
    );
}

#[test]
fn missing_criteria_fail() {
    assert_eq!(
        config_with("task", vec![], (500, 300, 200)).validate(),
        Err(ConfigError::EmptyCriteria)
    );
}

#[test]
fn the_first_fault_decides_the_error() {
    assert_eq!(
        config_with(" ", vec![], (1, 1, 1)).validate(),
        Err(ConfigError::EmptyTaskDescription)
    );
    assert_eq!(config_with("task", vec![], (1, 1, 1)).validate(), Err(ConfigError::EmptyCriteria));
}

#[test]
fn white_space_is_what_the_standard_library_calls_white_space() {
    let mut code: u32 = 0;
    while code <= 0x10FFFF {
        if let Some(c) = char::from_u32(code) {
            assert_eq!(is_whitespace(c), c.is_whitespace());
        }
        code += 1;
    }
}

#[test]
fn blank_texts() {
    assert!(blank(""));
    assert!(blank("  \r\n"));
    assert!(!blank(" a "));
}

#[test]
fn config_errors_say_what_is_wrong() {
    assert_eq!(ConfigError::EmptyTaskDescription.message(), "Task description cannot be empty");
    assert_eq!(ConfigError::EmptyCriteria.message(), "Evaluation criteria cannot be empty");
    assert_eq!(
        ConfigError::UnbalancedWeights { total: 1100 }.message(),
        "Grading weights must sum to 1.0, got: 1.100"
    );
}
