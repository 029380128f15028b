//! The prompt that asks the model for a grade.

use crate::config::AppConfig;
use crate::models::GradingRequest;
use crate::models::GradingRequestView;
use crate::text::chars_of;
use crate::text::decimal_of;
use crate::text::extend_chars;
use crate::text::push_decimal;
use crate::text::replace;
use crate::text::replace_all;
use crate::text::string_of;
use vstd::prelude::*;

verus! {

/// The template used when the settings give none.
pub open spec fn default_template() -> Seq<char> {
    "Please grade the following student submission according to the task description and evaluation criteria.\n\nTask Description:\n{task_description}\n\nEvaluation Criteria:\n{criteria}{teacher_comment}\n\nStudent Submission (File: {filename}):\n```\n{content}\n```\n\nPlease provide your evaluation in the following JSON format:\n{{\n    \"filename\": \"{filename}\",\n    \"correctness\": <score 0-100>,\n    \"style\": <score 0-100>,\n    \"edge_cases\": <score 0-100>,\n    \"total\": <weighted average score 0-100>,\n    \"comment\": \"<detailed feedback>\"\n}}\n\nNote: The total score will be calculated automatically using the grading weights."@
}

/// The template that the settings give, or the built-in one.
pub open spec fn template_of(app_config: Option<&AppConfig>) -> Seq<char> {
    match app_config {
        Some(cfg) => match cfg.prompt {
            Some(prompt) => match prompt.template {
                Some(template) => template@,
                None => default_template(),
            },
            None => default_template(),
        },
        None => default_template(),
    }
}

/// One line of the list of criteria: its number, counted from one, a full
/// stop, a blank, and the criterion.
pub open spec fn numbered_line(index: nat, criterion: Seq<char>) -> Seq<char> {
    decimal_of(index + 1) + ". "@ + criterion
}

/// The criteria as a numbered list, one to a line.
pub open spec fn numbered_list(criteria: Seq<Seq<char>>) -> Seq<char>
    decreases criteria.len(),
{
    if criteria.len() == 0 {
        Seq::empty()
    } else if criteria.len() == 1 {
        numbered_line(0, criteria[0])
    } else {
        numbered_list(criteria.drop_last()) + "\n"@ + numbered_line(
            (criteria.len() - 1) as nat,
            criteria.last(),
        )
    }
}

/// What stands for the teacher's comment in the prompt.
pub open spec fn teacher_comment_text(comment: Option<Seq<char>>) -> Seq<char> {
    match comment {
        Some(text) => "\nTeacher Comment: "@ + text,
        None => Seq::empty(),
    }
}

/// `template` with its placeholders filled from `request`, one after the
/// other: the task description, the criteria, the teacher's comment, the file
/// name and the content.
pub open spec fn prompt_of(request: GradingRequestView, template: Seq<char>) -> Seq<char> {
    let with_task = replace_all(template, "{task_description}"@, request.task_description);
    let with_criteria = replace_all(
        with_task,
        "{criteria}"@,
        numbered_list(request.evaluation_criteria),
    );
    let with_comment = replace_all(
        with_criteria,
        "{teacher_comment}"@,
        teacher_comment_text(request.teacher_comment),
    );
    let with_filename = replace_all(with_comment, "{filename}"@, request.filename);
    replace_all(with_filename, "{content}"@, request.content)
}

/// The criteria as a numbered list, one to a line.
pub fn render_criteria(criteria: &Vec<String>) -> (r: Vec<char>)
    ensures
        r@ == numbered_list(crate::models::views_of(criteria@)),
{
    let mut r: Vec<char> = Vec::new();
    let mut i: usize = 0;
    while i < criteria.len()
        invariant
            i <= criteria@.len(),
            r@ == numbered_list(crate::models::views_of(criteria@.subrange(0, i as int))),
        decreases criteria@.len() - i,
    {
        let ghost before = r@;
        if i > 0 {
            let newline = chars_of("\n");
            extend_chars(&mut r, &newline);
        }
        push_decimal(&mut r, i as u64 + 1);
        let dot = chars_of(". ");
        extend_chars(&mut r, &dot);
        let criterion = chars_of(criteria[i].as_str());
        extend_chars(&mut r, &criterion);
        proof {
            let next = crate::models::views_of(criteria@.subrange(0, i + 1));
            assert(next.drop_last() =~= crate::models::views_of(criteria@.subrange(0, i as int)));
            assert(next.last() == criteria@[i as int]@);
            if i == 0 {
                assert(next[0] == criteria@[0]@);
                assert(r@ =~= numbered_line(0, criteria@[0]@));
            } else {
                assert(r@ =~= before + "\n"@ + numbered_line(i as nat, criteria@[i as int]@));
            }
        }
        i = i + 1;
    }
    assert(criteria@.subrange(0, i as int) =~= criteria@);
    r
}

/// The prompt for `request`: the template of the settings, or the built-in
/// one, with its placeholders filled.
pub fn build_grading_prompt(request: &GradingRequest, app_config: Option<&AppConfig>) -> (prompt:
    String)
    ensures
        prompt@ == prompt_of(request@, template_of(app_config)),
{
    let criteria_text = render_criteria(&request.evaluation_criteria);
    let teacher_comment: Vec<char> = match &request.teacher_comment {
        Some(comment) => {
            let mut text = chars_of("\nTeacher Comment: ");
            let body = chars_of(comment.as_str());
            extend_chars(&mut text, &body);
            text
        },
        None => Vec::new(),
    };
    let template: Vec<char> = match configured_template(app_config) {
        Some(t) => chars_of(t),
        None => chars_of(
            "Please grade the following student submission according to the task description and evaluation criteria.\n\nTask Description:\n{task_description}\n\nEvaluation Criteria:\n{criteria}{teacher_comment}\n\nStudent Submission (File: {filename}):\n```\n{content}\n```\n\nPlease provide your evaluation in the following JSON format:\n{{\n    \"filename\": \"{filename}\",\n    \"correctness\": <score 0-100>,\n    \"style\": <score 0-100>,\n    \"edge_cases\": <score 0-100>,\n    \"total\": <weighted average score 0-100>,\n    \"comment\": \"<detailed feedback>\"\n}}\n\nNote: The total score will be calculated automatically using the grading weights.",
        ),
    };
    let with_task = replace(
        &template,
        &chars_of("{task_description}"),
        &chars_of(request.task_description.as_str()),
    );
    let with_criteria = replace(&with_task, &chars_of("{criteria}"), &criteria_text);
    let with_comment = replace(&with_criteria, &chars_of("{teacher_comment}"), &teacher_comment);
    let with_filename = replace(
        &with_comment,
        &chars_of("{filename}"),
        &chars_of(request.filename.as_str()),
    );
    let filled = replace(&with_filename, &chars_of("{content}"), &chars_of(request.content.as_str()));
    string_of(&filled)
}

/// The template that the settings give, if they give one.
pub fn configured_template<'a>(app_config: Option<&'a AppConfig>) -> (r: Option<&'a str>)
    ensures
        match r {
            Some(t) => t@ == template_of(app_config) && app_config is Some
                && app_config->0.prompt is Some && app_config->0.prompt->0.template is Some,
            None => template_of(app_config) == default_template(),
        },
{
    match app_config {
        Some(cfg) => match &cfg.prompt {
            Some(prompt) => match &prompt.template {
                Some(template) => Some(template.as_str()),
                None => None,
            },
            None => None,
        },
        None => None,
    }
}

} // verus!
