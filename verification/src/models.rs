//! The values that pass through the grader.
//!
//! Scores and weights are fixed-point numbers counted in thousandths: a score of
//! `83.5` is held as `83_500`, a weight of `0.3` as `300`.

pub use crate::config::Config;
use vstd::prelude::*;

verus! {

/// The views of the elements of `items`, in order.
pub open spec fn views_of<T: View>(items: Seq<T>) -> Seq<T::V> {
    items.map_values(|item: T| item@)
}

/// The weights by which the three part scores enter the total, in thousandths.
#[derive(Clone, Copy, Debug, PartialEq, Eq, Structural)]
pub struct GradingStrategy {
    pub correctness_weight: u32,
    pub style_weight: u32,
    pub edge_cases_weight: u32,
}

/// `n` millionths, rounded to the nearest thousandth; a half rounds away from zero.
pub open spec fn round_to_thousandths(n: int) -> int {
    if n >= 0 {
        (n + 500) / 1000
    } else {
        -((500 - n) / 1000)
    }
}

/// `n`, held to the range of `i64`.
pub open spec fn clamp_to_i64(n: int) -> int {
    if n < i64::MIN {
        i64::MIN as int
    } else if n > i64::MAX {
        i64::MAX as int
    } else {
        n
    }
}

/// The weighted sum of three part scores under `strategy`, in thousandths:
/// `correctness * correctness_weight + style * style_weight + edge_cases * edge_cases_weight`,
/// rounded to the nearest thousandth and held to the range of `i64`.
pub open spec fn weighted_total_of(
    correctness: int,
    style: int,
    edge_cases: int,
    strategy: GradingStrategy,
) -> int {
    clamp_to_i64(
        round_to_thousandths(
            correctness * strategy.correctness_weight + style * strategy.style_weight + edge_cases
                * strategy.edge_cases_weight,
        ),
    )
}

impl GradingStrategy {
    /// The strategy used when none is configured: `0.5`, `0.3`, `0.2`.
    pub open spec fn standard() -> GradingStrategy {
        GradingStrategy { correctness_weight: 500, style_weight: 300, edge_cases_weight: 200 }
    }

    /// The sum of the three weights, in thousandths.
    pub open spec fn weight_sum(self) -> int {
        self.correctness_weight + self.style_weight + self.edge_cases_weight
    }

    /// Whether the weights sum to one, give or take a hundredth.
    pub open spec fn is_balanced(self) -> bool {
        990 <= self.weight_sum() <= 1010
    }

    /// The weighted total of three part scores.
    pub fn total(&self, correctness: i64, style: i64, edge_cases: i64) -> (t: i64)
        ensures
            t == weighted_total_of(correctness as int, style as int, edge_cases as int, *self),
    {
        let c: i128 = correctness as i128;
        let s: i128 = style as i128;
        let e: i128 = edge_cases as i128;
        let cw: i128 = self.correctness_weight as i128;
        let sw: i128 = self.style_weight as i128;
        let ew: i128 = self.edge_cases_weight as i128;
        assert(-0x8000_0000_0000_0000_0000_0000 <= c * cw <= 0x8000_0000_0000_0000_0000_0000)
            by (nonlinear_arith)
            requires
                -0x8000_0000_0000_0000 <= c <= 0x8000_0000_0000_0000,
                0 <= cw <= 0x1_0000_0000,
        ;
        assert(-0x8000_0000_0000_0000_0000_0000 <= s * sw <= 0x8000_0000_0000_0000_0000_0000)
            by (nonlinear_arith)
            requires
                -0x8000_0000_0000_0000 <= s <= 0x8000_0000_0000_0000,
                0 <= sw <= 0x1_0000_0000,
        ;
        assert(-0x8000_0000_0000_0000_0000_0000 <= e * ew <= 0x8000_0000_0000_0000_0000_0000)
            by (nonlinear_arith)
            requires
                -0x8000_0000_0000_0000 <= e <= 0x8000_0000_0000_0000,
                0 <= ew <= 0x1_0000_0000,
        ;
        let sum: i128 = c * cw + s * sw + e * ew;
        if sum >= 0 {
            let rounded: i128 = (sum + 500) / 1000;
            if rounded > i64::MAX as i128 {
                i64::MAX
            } else {
                rounded as i64
            }
        } else {
            let rounded: i128 = (500 - sum) / 1000;
            if rounded > 0x8000_0000_0000_0000 {
                i64::MIN
            } else {
                (-rounded) as i64
            }
        }
    }
}

impl Default for GradingStrategy {
    fn default() -> (r: Self)
        ensures
            r == GradingStrategy::standard(),
    {
        GradingStrategy { correctness_weight: 500, style_weight: 300, edge_cases_weight: 200 }
    }
}

/// The scores and the feedback for one submission.
#[derive(Debug)]
pub struct GradingResult {
    /// The key of the submission.
    pub filename: String,
    pub correctness: i64,
    pub style: i64,
    pub edge_cases: i64,
    /// The weighted total of the three part scores.
    pub total: i64,
    pub comment: String,
}

/// What a `GradingResult` holds.
pub struct GradingResultView {
    pub filename: Seq<char>,
    pub correctness: int,
    pub style: int,
    pub edge_cases: int,
    pub total: int,
    pub comment: Seq<char>,
}

impl View for GradingResult {
    type V = GradingResultView;

    open spec fn view(&self) -> GradingResultView {
        GradingResultView {
            filename: self.filename@,
            correctness: self.correctness as int,
            style: self.style as int,
            edge_cases: self.edge_cases as int,
            total: self.total as int,
            comment: self.comment@,
        }
    }
}

impl Clone for GradingResult {
    fn clone(&self) -> (r: Self)
        ensures
            r@ == self@,
    {
        GradingResult {
            filename: self.filename.clone(),
            correctness: self.correctness,
            style: self.style,
            edge_cases: self.edge_cases,
            total: self.total,
            comment: self.comment.clone(),
        }
    }
}

/// The text taken from one file of a submission.
#[derive(Debug)]
pub struct FileContent {
    /// The path below the submission root, with `/` between its parts.
    pub filename: String,
    pub content: String,
    /// The extension, in lower case.
    pub file_type: String,
}

/// What a `FileContent` holds.
pub struct FileContentView {
    pub filename: Seq<char>,
    pub content: Seq<char>,
    pub file_type: Seq<char>,
}

impl View for FileContent {
    type V = FileContentView;

    open spec fn view(&self) -> FileContentView {
        FileContentView {
            filename: self.filename@,
            content: self.content@,
            file_type: self.file_type@,
        }
    }
}

/// The block that stands for one file in a merged submission.
pub open spec fn file_block(file: FileContentView) -> Seq<char> {
    "=== FILE: "@ + file.filename + " ===\n"@ + "Type: "@ + file.file_type + "\n"@ + "Content:\n"@
        + file.content + "\n\n"@
}

/// The blocks of `files`, one after the other.
pub open spec fn merged_content_of(files: Seq<FileContentView>) -> Seq<char>
    decreases files.len(),
{
    if files.len() == 0 {
        Seq::empty()
    } else {
        merged_content_of(files.drop_last()) + file_block(files.last())
    }
}

/// All the files of one student, merged into a single document.
#[derive(Debug)]
pub struct StudentSubmission {
    pub student_name: String,
    pub files: Vec<FileContent>,
    pub merged_content: String,
}

/// What a `StudentSubmission` holds.
pub struct StudentSubmissionView {
    pub student_name: Seq<char>,
    pub files: Seq<FileContentView>,
    pub merged_content: Seq<char>,
}

impl View for StudentSubmission {
    type V = StudentSubmissionView;

    open spec fn view(&self) -> StudentSubmissionView {
        StudentSubmissionView {
            student_name: self.student_name@,
            files: views_of(self.files@),
            merged_content: self.merged_content@,
        }
    }
}

impl StudentSubmission {
    /// Whether the merged content is the one that the files give.
    pub open spec fn wf(&self) -> bool {
        self.merged_content@ == merged_content_of(views_of(self.files@))
    }

    /// The key under which the results of this submission are kept: the
    /// student's name followed by `/`.
    pub open spec fn key(&self) -> Seq<char> {
        self.student_name@.push('/')
    }

    /// The submission of `student_name` that holds `files`, merged in their order.
    pub fn new(student_name: String, files: Vec<FileContent>) -> (r: Self)
        ensures
            r.student_name@ == student_name@,
            r.files@ == files@,
            r.wf(),
    {
        let merged_content = Self::merge_files(&files);
        StudentSubmission { student_name, files, merged_content }
    }

    /// The blocks of `files`, one after the other.
    pub fn merge_files(files: &Vec<FileContent>) -> (merged: String)
        ensures
            merged@ == merged_content_of(views_of(files@)),
    {
        let mut merged = String::new();
        let mut i: usize = 0;
        while i < files.len()
            invariant
                i <= files@.len(),
                merged@ == merged_content_of(views_of(files@.subrange(0, i as int))),
            decreases files@.len() - i,
        {
            let file = &files[i];
            let ghost before = merged@;
            merged.append("=== FILE: ");
            merged.append(file.filename.as_str());
            merged.append(" ===\n");
            merged.append("Type: ");
            merged.append(file.file_type.as_str());
            merged.append("\n");
            merged.append("Content:\n");
            merged.append(file.content.as_str());
            merged.append("\n\n");
            proof {
                let next = views_of(files@.subrange(0, i + 1));
                assert(next.drop_last() =~= views_of(files@.subrange(0, i as int)));
                assert(next.last() == file@);
                assert(merged@ =~= before + file_block(file@));
            }
            i = i + 1;
        }
        assert(files@.subrange(0, i as int) =~= files@);
        merged
    }

    /// The key under which the results of this submission are kept.
    pub fn get_main_filename(&self) -> (name: String)
        ensures
            name@ == self.key(),
    {
        let mut name = self.student_name.clone();
        name.push('/');
        name
    }
}

/// One grading call: a submission's content with the task it is graded against.
#[derive(Debug)]
pub struct GradingRequest {
    pub filename: String,
    pub content: String,
    pub task_description: String,
    pub evaluation_criteria: Vec<String>,
    pub teacher_comment: Option<String>,
}

/// What a `GradingRequest` holds.
pub struct GradingRequestView {
    pub filename: Seq<char>,
    pub content: Seq<char>,
    pub task_description: Seq<char>,
    pub evaluation_criteria: Seq<Seq<char>>,
    pub teacher_comment: Option<Seq<char>>,
}

/// The view of an optional string.
pub open spec fn optional_view(text: Option<String>) -> Option<Seq<char>> {
    match text {
        Some(t) => Some(t@),
        None => None,
    }
}

impl View for GradingRequest {
    type V = GradingRequestView;

    open spec fn view(&self) -> GradingRequestView {
        GradingRequestView {
            filename: self.filename@,
            content: self.content@,
            task_description: self.task_description@,
            evaluation_criteria: views_of(self.evaluation_criteria@),
            teacher_comment: optional_view(self.teacher_comment),
        }
    }
}

/// The fields of a model's reply, before the total is computed.
#[derive(Debug)]
pub struct GradingResponse {
    pub filename: String,
    pub correctness: i64,
    pub style: i64,
    pub edge_cases: i64,
    pub comment: String,
}

/// What a `GradingResponse` holds.
pub struct GradingResponseView {
    pub filename: Seq<char>,
    pub correctness: int,
    pub style: int,
    pub edge_cases: int,
    pub comment: Seq<char>,
}

impl View for GradingResponse {
    type V = GradingResponseView;

    open spec fn view(&self) -> GradingResponseView {
        GradingResponseView {
            filename: self.filename@,
            correctness: self.correctness as int,
            style: self.style as int,
            edge_cases: self.edge_cases as int,
            comment: self.comment@,
        }
    }
}

/// One message of a chat.
#[derive(Debug)]
pub struct OpenAIMessage {
    pub role: String,
    pub content: String,
}

/// What an `OpenAIMessage` holds.
pub struct OpenAIMessageView {
    pub role: Seq<char>,
    pub content: Seq<char>,
}

impl View for OpenAIMessage {
    type V = OpenAIMessageView;

    open spec fn view(&self) -> OpenAIMessageView {
        OpenAIMessageView { role: self.role@, content: self.content@ }
    }
}

/// The body of a chat-completion request.
#[derive(Debug)]
pub struct OpenAIRequest {
    pub model: String,
    pub messages: Vec<OpenAIMessage>,
    /// The sampling temperature, in thousandths.
    pub temperature: u32,
    pub max_tokens: u32,
}

/// What an `OpenAIRequest` holds.
pub struct OpenAIRequestView {
    pub model: Seq<char>,
    pub messages: Seq<OpenAIMessageView>,
    pub temperature: u32,
    pub max_tokens: u32,
}

impl View for OpenAIRequest {
    type V = OpenAIRequestView;

    open spec fn view(&self) -> OpenAIRequestView {
        OpenAIRequestView {
            model: self.model@,
            messages: views_of(self.messages@),
            temperature: self.temperature,
            max_tokens: self.max_tokens,
        }
    }
}

/// The body of a chat-completion response.
#[derive(Debug)]
pub struct OpenAIResponse {
    pub choices: Vec<OpenAIChoice>,
}

/// One choice of a chat-completion response.
#[derive(Debug)]
pub struct OpenAIChoice {
    pub message: OpenAIMessage,
}

/// The body of a generate request.
#[derive(Debug)]
pub struct OllamaRequest {
    pub model: String,
    pub prompt: String,
    pub stream: bool,
}

/// What an `OllamaRequest` holds.
pub struct OllamaRequestView {
    pub model: Seq<char>,
    pub prompt: Seq<char>,
    pub stream: bool,
}

impl View for OllamaRequest {
    type V = OllamaRequestView;

    open spec fn view(&self) -> OllamaRequestView {
        OllamaRequestView { model: self.model@, prompt: self.prompt@, stream: self.stream }
    }
}

/// The body of a generate response.
#[derive(Debug)]
pub struct OllamaResponse {
    pub response: String,
}

} // verus!
