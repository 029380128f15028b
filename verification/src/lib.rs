//! Paper Sage: grading of student programming submissions with the help of an
//! AI model.
//!
//! The crate holds the verified core of the grader: grouping the files of a
//! submission tree by student, building the grading prompt, choosing and
//! driving the AI backend, reading the model's reply, recomputing the weighted
//! total, and carrying a batch through failures and resumption. Reading files
//! and talking to the network are left to the caller, who hands plain values
//! in and takes plain values back.
//!
//! Scores and weights are fixed-point numbers counted in thousandths, so every
//! total is computed in exact integer arithmetic.

pub mod config;
pub mod decimal;
pub mod excel_generator;
pub mod file_processor;
pub mod grader;
pub mod models;
pub mod samples;
pub mod text;

pub use crate::excel_generator::ExcelGenerator;
pub use crate::file_processor::FileProcessor;
pub use crate::grader::Grader;
pub use crate::models::Config;
pub use crate::models::FileContent;
pub use crate::models::GradingRequest;
pub use crate::models::GradingResponse;
pub use crate::models::GradingResult;
pub use crate::models::StudentSubmission;

use crate::config::validation_of;
use crate::config::AppConfig;
use crate::file_processor::grouped;
use crate::file_processor::submissions_of;
use crate::file_processor::ScannedFile;
use crate::grader::ai_client::Exchange;
use crate::grader::GradingRun;
use crate::models::views_of;
use vstd::prelude::*;

verus! {

/// The endpoint that is used when none is named.
pub open spec fn default_endpoint() -> Seq<char> {
    "https://api.openai.com/v1/chat/completions"@
}

/// The endpoint that a run uses: the one that is named, or the default.
pub open spec fn endpoint_of(model_endpoint: Option<String>) -> Seq<char> {
    match model_endpoint {
        Some(endpoint) => endpoint@,
        None => default_endpoint(),
    }
}

/// The application: a validated configuration with the parts that work on it.
#[derive(Debug)]
pub struct PaperSage {
    pub config: Config,
    pub app_config: AppConfig,
    pub file_processor: FileProcessor,
    pub grader: Grader,
    pub excel_generator: ExcelGenerator,
}

impl PaperSage {
    /// The application for `config`, if the configuration is valid. The
    /// backend is the one at `model_endpoint`, or at the default endpoint.
    pub fn new(config: Config, app_config: AppConfig, model_endpoint: Option<String>) -> (r: Result<
        Self,
        PaperSageError,
    >)
        ensures
            match validation_of(config@) {
                Ok(_) => r is Ok && r->Ok_0.config@ == config@ && r->Ok_0.app_config == app_config
                    && r->Ok_0.grader.grading_engine.config@ == config@
                    && r->Ok_0.grader.ai_client.wf()
                    && r->Ok_0.grader.ai_client.model_endpoint@ == endpoint_of(model_endpoint)
                    && r->Ok_0.grader.ai_client.app_config == Some(app_config),
                Err(e) => r matches Err(PaperSageError::Config(reason)) && reason@
                    == e.message_of(),
            },
    {
        match config.validate() {
            Ok(_) => {},
            Err(e) => {
                return Err(PaperSageError::Config(e.message()));
            },
        }
        let endpoint = match model_endpoint {
            Some(endpoint) => endpoint,
            None => String::from_str("https://api.openai.com/v1/chat/completions"),
        };
        match Grader::new(endpoint.as_str(), &config, Some(app_config.clone())) {
            Ok(grader) => Ok(
                PaperSage {
                    config,
                    app_config,
                    file_processor: FileProcessor::new(),
                    grader,
                    excel_generator: ExcelGenerator::new(),
                },
            ),
            Err(e) => Err(PaperSageError::Grading(e.message)),
        }
    }

    /// A run that grades every one of `submissions`.
    pub fn grade_submissions(&self, submissions: Vec<StudentSubmission>) -> (run: GradingRun)
        ensures
            run.submissions == submissions,
            run.cache@.len() == 0,
            run.results@.len() == 0,
            run.exchange == Exchange::fresh(),
    {
        self.grader.grade_submissions(submissions)
    }

    /// A run that grades those of `submissions` for which `existing` holds no
    /// result, and takes the earlier result for the others.
    pub fn resume_grading(
        &self,
        submissions: Vec<StudentSubmission>,
        existing: Vec<GradingResult>,
    ) -> (run: GradingRun)
        ensures
            run.submissions == submissions,
            run.cache == existing,
            run.results@.len() == 0,
            run.exchange == Exchange::fresh(),
    {
        self.grader.resume_grading(submissions, existing)
    }

    /// The report for `results`.
    pub fn generate_reports(&self, results: &Vec<GradingResult>) -> (report: String)
        ensures
            report@ == crate::excel_generator::report_of(views_of(results@)),
    {
        self.excel_generator.generate_report(results)
    }

    /// The configuration of the run.
    pub fn config(&self) -> (config: &Config)
        ensures
            config == &self.config,
    {
        &self.config
    }

    /// The submissions that the files of a walk make.
    pub fn process_files(&self, root_name: &str, scanned: &Vec<ScannedFile>) -> (r: Vec<
        StudentSubmission,
    >)
        ensures
            views_of(r@) == submissions_of(grouped(root_name@, views_of(scanned@))),
            forall|i: int| 0 <= i < r@.len() ==> (#[trigger] r@[i]).wf(),
    {
        self.file_processor.process_directory(root_name, scanned)
    }
}

/// What can go wrong in a run, by the part of the run that fails.
#[derive(Debug)]
pub enum PaperSageError {
    /// The configuration could not be loaded, or was refused.
    Config(String),
    /// The submission tree could not be read.
    FileProcessing(String),
    /// Grading failed.
    Grading(String),
    /// The report could not be written.
    ReportGeneration(String),
}

impl PaperSageError {
    /// What the error says: the part of the run that failed, and the reason.
    pub open spec fn message_of(&self) -> Seq<char> {
        match self {
            PaperSageError::Config(reason) => "Configuration error: "@ + reason@,
            PaperSageError::FileProcessing(reason) => "File processing error: "@ + reason@,
            PaperSageError::Grading(reason) => "Grading error: "@ + reason@,
            PaperSageError::ReportGeneration(reason) => "Report generation error: "@ + reason@,
        }
    }

    /// What the error says.
    pub fn message(&self) -> (text: String)
        ensures
            text@ == self.message_of(),
    {
        match self {
            PaperSageError::Config(reason) => {
                let mut text = String::from_str("Configuration error: ");
                text.append(reason.as_str());
                text
            },
            PaperSageError::FileProcessing(reason) => {
                let mut text = String::from_str("File processing error: ");
                text.append(reason.as_str());
                text
            },
            PaperSageError::Grading(reason) => {
                let mut text = String::from_str("Grading error: ");
                text.append(reason.as_str());
                text
            },
            PaperSageError::ReportGeneration(reason) => {
                let mut text = String::from_str("Report generation error: ");
                text.append(reason.as_str());
                text
            },
        }
    }
}

} // verus!
