//! The engine that turns a submission into a grading call.

use crate::config::Config;
use crate::config::ConfigView;
use crate::grader::ai_client::AIClient;
use crate::grader::ai_client::Action;
use crate::grader::ai_client::Event;
use crate::grader::ai_client::Exchange;
use crate::models::GradingRequest;
use crate::models::GradingRequestView;
use crate::models::StudentSubmission;
use crate::models::StudentSubmissionView;
use vstd::prelude::*;

verus! {

/// The request that grades `submission` against `config`: the submission's
/// key and merged content, with the task, the criteria and the teacher's
/// comment of the run.
pub open spec fn request_of(config: ConfigView, submission: StudentSubmissionView) -> GradingRequestView {
    GradingRequestView {
        filename: submission.student_name.push('/'),
        content: submission.merged_content,
        task_description: config.task_description,
        evaluation_criteria: config.evaluation_criteria,
        teacher_comment: config.teacher_comment,
    }
}

/// A copy of `text`.
pub fn copy_optional(text: &Option<String>) -> (r: Option<String>)
    ensures
        r == *text,
{
    match text {
        Some(t) => Some(t.clone()),
        None => None,
    }
}

/// A copy of `texts`.
pub fn copy_strings(texts: &Vec<String>) -> (r: Vec<String>)
    ensures
        r@ == texts@,
{
    let mut r: Vec<String> = Vec::new();
    let mut i: usize = 0;
    while i < texts.len()
        invariant
            i <= texts@.len(),
            r@ == texts@.subrange(0, i as int),
        decreases texts@.len() - i,
    {
        r.push(texts[i].clone());
        i = i + 1;
        assert(r@ =~= texts@.subrange(0, i as int));
    }
    assert(texts@.subrange(0, i as int) =~= texts@);
    r
}

impl Clone for Config {
    fn clone(&self) -> (r: Self)
        ensures
            r@ == self@,
            r.grading_strategy == self.grading_strategy,
    {
        Config {
            task_description: self.task_description.clone(),
            evaluation_criteria: copy_strings(&self.evaluation_criteria),
            teacher_comment: copy_optional(&self.teacher_comment),
            grading_strategy: self.grading_strategy,
        }
    }
}

/// The engine that grades submissions against one configuration.
#[derive(Debug)]
pub struct GradingEngine {
    pub config: Config,
}

impl GradingEngine {
    /// The engine that grades against `config`.
    pub fn new(config: &Config) -> (r: Self)
        ensures
            r.config@ == config@,
    {
        GradingEngine { config: config.clone() }
    }

    /// The request that grades `submission`.
    pub fn request_for(&self, submission: &StudentSubmission) -> (r: GradingRequest)
        ensures
            r@ == request_of(self.config@, submission@),
    {
        GradingRequest {
            filename: submission.get_main_filename(),
            content: submission.merged_content.clone(),
            task_description: self.config.task_description.clone(),
            evaluation_criteria: copy_strings(&self.config.evaluation_criteria),
            teacher_comment: copy_optional(&self.config.teacher_comment),
        }
    }

    /// One step of the grading call for `submission`: the step of `ai_client`
    /// on the request that grades `submission`, under the strategy of the
    /// configuration.
    pub fn grade_submission(
        &self,
        ai_client: &AIClient,
        submission: &StudentSubmission,
        exchange: Exchange,
        event: Event,
    ) -> (r: (Exchange, Action))
        ensures
            (r.0, r.1@) == ai_client.step(
                request_of(self.config@, submission@),
                self.config.grading_strategy,
                exchange,
                event,
            ),
    {
        let request = self.request_for(submission);
        ai_client.grade_submission(&request, &self.config.grading_strategy, exchange, event)
    }
}

} // verus!
