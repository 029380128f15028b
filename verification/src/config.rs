//! The settings of a run: what is graded and against what, and how the AI
//! backend is addressed.

use crate::models::GradingStrategy;
use crate::models::optional_view;
use crate::models::views_of;
use vstd::prelude::*;

verus! {

/// Settings of the AI backend. A field left out takes its default.
#[derive(Clone, Copy, Debug)]
pub struct AiConfig {
    /// The time allowed for one request, in seconds.
    pub timeout_secs: Option<u64>,
    /// The sampling temperature, in thousandths.
    pub temperature: Option<u32>,
    pub max_tokens: Option<u32>,
}

/// Settings of the prompt.
#[derive(Debug)]
pub struct PromptConfig {
    /// The template that takes the place of the built-in one.
    pub template: Option<String>,
}

/// The settings of the application.
#[derive(Debug)]
pub struct AppConfig {
    pub ai: Option<AiConfig>,
    pub prompt: Option<PromptConfig>,
}

impl Clone for PromptConfig {
    fn clone(&self) -> (r: Self)
        ensures
            r == *self,
    {
        PromptConfig {
            template: match &self.template {
                Some(t) => Some(t.clone()),
                None => None,
            },
        }
    }
}

impl Clone for AppConfig {
    fn clone(&self) -> (r: Self)
        ensures
            r == *self,
    {
        AppConfig {
            ai: self.ai,
            prompt: match &self.prompt {
                Some(p) => Some(p.clone()),
                None => None,
            },
        }
    }
}

/// The task of a run and the rule by which its totals are computed.
#[derive(Debug)]
pub struct Config {
    pub task_description: String,
    pub evaluation_criteria: Vec<String>,
    pub teacher_comment: Option<String>,
    pub grading_strategy: GradingStrategy,
}

/// What a `Config` holds.
pub struct ConfigView {
    pub task_description: Seq<char>,
    pub evaluation_criteria: Seq<Seq<char>>,
    pub teacher_comment: Option<Seq<char>>,
    pub grading_strategy: GradingStrategy,
}

impl View for Config {
    type V = ConfigView;

    open spec fn view(&self) -> ConfigView {
        ConfigView {
            task_description: self.task_description@,
            evaluation_criteria: views_of(self.evaluation_criteria@),
            teacher_comment: optional_view(self.teacher_comment),
            grading_strategy: self.grading_strategy,
        }
    }
}

/// Why a configuration is refused.
#[derive(Clone, Copy, Debug, PartialEq, Eq, Structural)]
pub enum ConfigError {
    /// The task description is empty or holds white space only.
    EmptyTaskDescription,
    /// No evaluation criterion is given.
    EmptyCriteria,
    /// The weights do not sum to one, give or take a hundredth. `total` is
    /// their sum in thousandths.
    UnbalancedWeights { total: u32 },
}

/// Whether `c` is white space: a character with the Unicode property
/// `White_Space`.
pub open spec fn is_white_space(c: char) -> bool {
    let n = c as u32;
    ||| 0x09 <= n <= 0x0D
    ||| n == 0x20
    ||| n == 0x85
    ||| n == 0xA0
    ||| n == 0x1680
    ||| 0x2000 <= n <= 0x200A
    ||| n == 0x2028
    ||| n == 0x2029
    ||| n == 0x202F
    ||| n == 0x205F
    ||| n == 0x3000
}

/// Whether `text` holds nothing but white space.
pub open spec fn is_blank(text: Seq<char>) -> bool {
    forall|i: int| 0 <= i < text.len() ==> is_white_space(#[trigger] text[i])
}

/// `n`, held to the range of `u32`.
pub open spec fn clamp_to_u32(n: int) -> u32 {
    if n > u32::MAX {
        u32::MAX
    } else if n < 0 {
        0
    } else {
        n as u32
    }
}

/// What the validation of a configuration gives.
pub open spec fn validation_of(config: ConfigView) -> Result<(), ConfigError> {
    if is_blank(config.task_description) {
        Err(ConfigError::EmptyTaskDescription)
    } else if config.evaluation_criteria.len() == 0 {
        Err(ConfigError::EmptyCriteria)
    } else if !config.grading_strategy.is_balanced() {
        Err(ConfigError::UnbalancedWeights { total: clamp_to_u32(config.grading_strategy.weight_sum()) })
    } else {
        Ok(())
    }
}

/// Whether `c` is white space.
pub fn is_whitespace(c: char) -> (r: bool)
    ensures
        r == is_white_space(c),
{
    let n: u32 = c as u32;
    (0x09 <= n && n <= 0x0D) || n == 0x20 || n == 0x85 || n == 0xA0 || n == 0x1680 || (0x2000 <= n
        && n <= 0x200A) || n == 0x2028 || n == 0x2029 || n == 0x202F || n == 0x205F || n == 0x3000
}

/// Whether `text` holds nothing but white space.
pub fn blank(text: &str) -> (r: bool)
    ensures
        r == is_blank(text@),
{
    let chars = crate::text::chars_of(text);
    let mut i: usize = 0;
    while i < chars.len()
        invariant
            i <= chars@.len(),
            chars@ == text@,
            forall|j: int| 0 <= j < i ==> is_white_space(#[trigger] chars@[j]),
        decreases chars@.len() - i,
    {
        if !is_whitespace(chars[i]) {
            return false;
        }
        i = i + 1;
    }
    true
}

impl ConfigError {
    /// What the error says.
    pub open spec fn message_of(self) -> Seq<char> {
        match self {
            ConfigError::EmptyTaskDescription => "Task description cannot be empty"@,
            ConfigError::EmptyCriteria => "Evaluation criteria cannot be empty"@,
            ConfigError::UnbalancedWeights { total } => "Grading weights must sum to 1.0, got: "@
                + crate::decimal::thousandths_text(total as int),
        }
    }

    /// What the error says.
    pub fn message(&self) -> (text: String)
        ensures
            text@ == self.message_of(),
    {
        match self {
            ConfigError::EmptyTaskDescription => String::from_str(
                "Task description cannot be empty",
            ),
            ConfigError::EmptyCriteria => String::from_str("Evaluation criteria cannot be empty"),
            ConfigError::UnbalancedWeights { total } => {
                let mut text = crate::text::chars_of("Grading weights must sum to 1.0, got: ");
                crate::decimal::push_thousandths(&mut text, *total as i64);
                crate::text::string_of(&text)
            },
        }
    }
}

impl Config {
    /// Checks that the task is described, that there is a criterion to grade
    /// by, and that the weights sum to one, give or take a hundredth.
    pub fn validate(&self) -> (r: Result<(), ConfigError>)
        ensures
            r == validation_of(self@),
            r is Ok ==> self.grading_strategy.is_balanced(),
            !self.grading_strategy.is_balanced() ==> r is Err,
    {
        if blank(self.task_description.as_str()) {
            return Err(ConfigError::EmptyTaskDescription);
        }
        if self.evaluation_criteria.len() == 0 {
            return Err(ConfigError::EmptyCriteria);
        }
        let strategy = &self.grading_strategy;
        let total: u64 = strategy.correctness_weight as u64 + strategy.style_weight as u64
            + strategy.edge_cases_weight as u64;
        if total < 990 || total > 1010 {
            let total: u32 = if total > u32::MAX as u64 {
                u32::MAX
            } else {
                total as u32
            };
            return Err(ConfigError::UnbalancedWeights { total });
        }
        Ok(())
    }
}

} // verus!
