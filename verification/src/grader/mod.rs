//! Grading: the prompt, the backend, the reply, and the batch around them.
//!
//! A batch is a `GradingRun`: the submissions in the order of their discovery,
//! the results so far, and the earlier results that a resumed run may still
//! use. `Grader::next_action` carries it forward one event at a time. The
//! submissions are graded one after the other; a submission whose earlier
//! result is at hand is not graded again, and one whose grading fails gets a
//! result of zeros that says why.

pub mod ai_client;
pub mod grading_engine;
pub mod mock_grading;
pub mod prompt_builder;
pub mod response_parser;

use crate::config::AppConfig;
use crate::config::Config;
use crate::grader::ai_client::Action;
use crate::grader::ai_client::ActionView;
use crate::grader::ai_client::ChatCall;
use crate::grader::ai_client::ChatCallView;
use crate::grader::ai_client::Event;
use crate::grader::ai_client::Exchange;
use crate::grader::ai_client::GenerateCall;
use crate::grader::ai_client::GenerateCallView;
use crate::grader::ai_client::GradingError;
use crate::grader::ai_client::GradingErrorView;
use crate::grader::ai_client::Phase;
use crate::grader::grading_engine::request_of;
use crate::models::views_of;
use crate::models::GradingResult;
use crate::models::GradingResultView;
use crate::models::StudentSubmission;
use crate::models::StudentSubmissionView;
use crate::text::same_text;
use vstd::prelude::*;

pub use crate::grader::ai_client::AIClient;
pub use crate::grader::grading_engine::GradingEngine;

verus! {

/// The result that stands for a submission whose grading failed: all scores
/// zero, and a comment that gives the reason.
pub open spec fn failed_result_of(key: Seq<char>, message: Seq<char>) -> GradingResultView {
    GradingResultView {
        filename: key,
        correctness: 0,
        style: 0,
        edge_cases: 0,
        total: 0,
        comment: "Error during grading: "@ + message,
    }
}

/// The result that the outcome of a grading call leaves for the submission
/// `key`: the result of the call, or the one that stands for its failure.
pub open spec fn settled(
    outcome: Result<GradingResultView, GradingErrorView>,
    key: Seq<char>,
) -> GradingResultView {
    match outcome {
        Ok(result) => result,
        Err(error) => failed_result_of(key, error.message),
    }
}

/// A failed grading leaves a result of zeros with a comment that is not empty.
pub proof fn lemma_failure_is_recorded(error: GradingErrorView, key: Seq<char>)
    ensures
        settled(Err(error), key).filename == key,
        settled(Err(error), key).correctness == 0,
        settled(Err(error), key).style == 0,
        settled(Err(error), key).edge_cases == 0,
        settled(Err(error), key).total == 0,
        settled(Err(error), key).comment.len() > 0,
{
    reveal_strlit("Error during grading: ");
}

/// The earlier result for the submission `key`: the last one in `cache` that
/// bears its name.
pub open spec fn cached_result(cache: Seq<GradingResultView>, key: Seq<char>) -> Option<
    GradingResultView,
>
    decreases cache.len(),
{
    if cache.len() == 0 {
        None
    } else if cache.last().filename == key {
        Some(cache.last())
    } else {
        cached_result(cache.drop_last(), key)
    }
}

/// `cache` without the results for the submission `key`.
pub open spec fn without_key(cache: Seq<GradingResultView>, key: Seq<char>) -> Seq<
    GradingResultView,
>
    decreases cache.len(),
{
    if cache.len() == 0 {
        cache
    } else if cache.last().filename == key {
        without_key(cache.drop_last(), key)
    } else {
        without_key(cache.drop_last(), key).push(cache.last())
    }
}

/// The key of a submission.
pub open spec fn key_of(submission: StudentSubmissionView) -> Seq<char> {
    submission.student_name.push('/')
}

/// The earlier results that are left, and the results of the run, after the
/// submissions that come next have taken their earlier results: each in turn,
/// until one has none.
pub open spec fn reuse(
    submissions: Seq<StudentSubmissionView>,
    cache: Seq<GradingResultView>,
    results: Seq<GradingResultView>,
) -> (Seq<GradingResultView>, Seq<GradingResultView>)
    decreases submissions.len() - results.len(),
{
    if results.len() < submissions.len() {
        let key = key_of(submissions[results.len() as int]);
        match cached_result(cache, key) {
            Some(earlier) => reuse(submissions, without_key(cache, key), results.push(earlier)),
            None => (cache, results),
        }
    } else {
        (cache, results)
    }
}

/// Taking earlier results adds to the results of the run and goes no further
/// than the submissions do.
pub proof fn lemma_reuse_extends(
    submissions: Seq<StudentSubmissionView>,
    cache: Seq<GradingResultView>,
    results: Seq<GradingResultView>,
)
    requires
        results.len() <= submissions.len(),
    ensures
        results.len() <= reuse(submissions, cache, results).1.len() <= submissions.len(),
        reuse(submissions, cache, results).1.subrange(0, results.len() as int) == results,
    decreases submissions.len() - results.len(),
{
    if results.len() < submissions.len() {
        let key = key_of(submissions[results.len() as int]);
        match cached_result(cache, key) {
            Some(earlier) => {
                lemma_reuse_extends(submissions, without_key(cache, key), results.push(earlier));
                let after = reuse(submissions, cache, results).1;
                assert(after.subrange(0, results.len() as int) =~= after.subrange(
                    0,
                    results.len() as int + 1,
                ).subrange(0, results.len() as int));
                assert(results.push(earlier).subrange(0, results.len() as int) =~= results);
            },
            None => {
                assert(results.subrange(0, results.len() as int) =~= results);
            },
        }
    } else {
        assert(results.subrange(0, results.len() as int) =~= results);
    }
}

/// Where the first of some earlier results is the only one of its name, it is
/// the one found under that name, and taking it leaves the others.
pub proof fn lemma_first_of_its_name(cache: Seq<GradingResultView>, key: Seq<char>)
    requires
        cache.len() > 0,
        cache[0].filename == key,
        forall|i: int| 0 < i < cache.len() ==> cache[i].filename != key,
    ensures
        cached_result(cache, key) == Some(cache[0]),
        without_key(cache, key) == cache.skip(1),
    decreases cache.len(),
{
    if cache.len() == 1 {
        assert(without_key(cache.drop_last(), key) =~= cache.skip(1));
    } else {
        lemma_first_of_its_name(cache.drop_last(), key);
        assert(cache.drop_last().skip(1).push(cache.last()) =~= cache.skip(1));
    }
}

/// Where the earlier results that are left are those of the submissions that
/// are left, one for each and in their order, and no two submissions share a
/// key, every submission takes its earlier result.
pub proof fn lemma_reuse_takes_all(
    submissions: Seq<StudentSubmissionView>,
    existing: Seq<GradingResultView>,
    done: int,
)
    requires
        0 <= done <= submissions.len(),
        existing.len() == submissions.len(),
        forall|i: int|
            0 <= i < submissions.len() ==> (#[trigger] existing[i]).filename == key_of(
                submissions[i],
            ),
        forall|i: int, j: int|
            0 <= i < j < submissions.len() ==> key_of(submissions[i]) != key_of(submissions[j]),
    ensures
        reuse(submissions, existing.skip(done), existing.take(done)) == (
            Seq::<GradingResultView>::empty(),
            existing,
        ),
    decreases submissions.len() - done,
{
    let cache = existing.skip(done);
    let results = existing.take(done);
    if done < submissions.len() {
        let key = key_of(submissions[done]);
        assert(cache[0] == existing[done]);
        assert forall|i: int| 0 < i < cache.len() implies cache[i].filename != key by {
            assert(cache[i] == existing[done + i]);
        }
        lemma_first_of_its_name(cache, key);
        assert(cache.skip(1) =~= existing.skip(done + 1));
        assert(results.push(existing[done]) =~= existing.take(done + 1));
        lemma_reuse_takes_all(submissions, existing, done + 1);
    } else {
        assert(cache =~= Seq::<GradingResultView>::empty());
        assert(results =~= existing);
    }
}

/// The state of a batch.
#[derive(Debug)]
pub struct GradingRun {
    /// The submissions, in the order of their discovery.
    pub submissions: Vec<StudentSubmission>,
    /// The earlier results that no submission has taken yet.
    pub cache: Vec<GradingResult>,
    /// The results so far: one for each of the first submissions.
    pub results: Vec<GradingResult>,
    /// The state of the grading call for the next submission.
    pub exchange: Exchange,
}

/// What a `GradingRun` holds.
pub struct GradingRunView {
    pub submissions: Seq<StudentSubmissionView>,
    pub cache: Seq<GradingResultView>,
    pub results: Seq<GradingResultView>,
    pub exchange: Exchange,
}

impl View for GradingRun {
    type V = GradingRunView;

    open spec fn view(&self) -> GradingRunView {
        GradingRunView {
            submissions: views_of(self.submissions@),
            cache: views_of(self.cache@),
            results: views_of(self.results@),
            exchange: self.exchange,
        }
    }
}

impl GradingRunView {
    /// Whether the run is in a state that a batch can be in: it has no more
    /// results than submissions, and its call is in a state that a call can
    /// be in.
    pub open spec fn wf(self) -> bool {
        &&& self.results.len() <= self.submissions.len()
        &&& self.exchange.wf()
    }

    /// A bound on the steps that the batch still takes.
    pub open spec fn steps_left(self) -> nat {
        let open = (self.submissions.len() - self.results.len()) as nat;
        open * (2 * crate::grader::ai_client::MAX_ATTEMPTS + 2) as nat + if self.in_flight() {
            self.exchange.steps_left()
        } else {
            (2 * crate::grader::ai_client::MAX_ATTEMPTS + 1) as nat
        }
    }

    /// Whether a grading call is under way.
    pub open spec fn in_flight(self) -> bool {
        &&& self.exchange.phase == Phase::Awaiting || self.exchange.phase == Phase::Backoff
        &&& self.results.len() < self.submissions.len()
    }

    /// Whether every submission has its result.
    pub open spec fn is_complete(self) -> bool {
        self.results.len() >= self.submissions.len()
    }
}

/// What the caller of a batch is to do next.
#[derive(Debug)]
pub enum BatchAction {
    /// Send the request as JSON with the header `Content-Type: application/json`.
    SendChat(ChatCall),
    /// Send the request as JSON with the header `Content-Type: application/json`.
    SendGenerate(GenerateCall),
    /// Wait, then report `Event::Slept`.
    Sleep { seconds: u64 },
    /// The batch is over: the results of the run are complete.
    Done,
}

/// What a `BatchAction` holds.
pub enum BatchActionView {
    SendChat(ChatCallView),
    SendGenerate(GenerateCallView),
    Sleep { seconds: u64 },
    Done,
}

impl View for BatchAction {
    type V = BatchActionView;

    open spec fn view(&self) -> BatchActionView {
        match self {
            BatchAction::SendChat(call) => BatchActionView::SendChat(call@),
            BatchAction::SendGenerate(call) => BatchActionView::SendGenerate(call@),
            BatchAction::Sleep { seconds } => BatchActionView::Sleep { seconds: *seconds },
            BatchAction::Done => BatchActionView::Done,
        }
    }
}

/// The action of a batch that carries out `action`, an action of a call that
/// is not over.
pub open spec fn batch_action_of(action: ActionView) -> BatchActionView {
    match action {
        ActionView::SendChat(call) => BatchActionView::SendChat(call),
        ActionView::SendGenerate(call) => BatchActionView::SendGenerate(call),
        ActionView::Sleep { seconds } => BatchActionView::Sleep { seconds },
        ActionView::Finish(_) => BatchActionView::Done,
    }
}

/// The grader: a client of the AI backend and the engine that feeds it.
#[derive(Debug)]
pub struct Grader {
    pub ai_client: AIClient,
    pub grading_engine: GradingEngine,
}

impl Grader {
    /// The step of the grading call for the next submission of `run`.
    pub open spec fn call_step(&self, run: GradingRunView, exchange: Exchange, event: Event) -> (
        Exchange,
        ActionView,
    ) {
        self.ai_client.step(
            request_of(self.grading_engine.config@, run.submissions[run.results.len() as int]),
            self.grading_engine.config.grading_strategy,
            exchange,
            event,
        )
    }

    /// What follows when no call is under way: the submissions that come next
    /// take their earlier results; then the batch is over, or the call for the
    /// next submission begins.
    pub open spec fn begin_next(&self, run: GradingRunView) -> (GradingRunView, BatchActionView) {
        let (cache, results) = reuse(run.submissions, run.cache, run.results);
        let rested = GradingRunView {
            submissions: run.submissions,
            cache,
            results,
            exchange: Exchange::fresh(),
        };
        if rested.is_complete() {
            (rested, BatchActionView::Done)
        } else {
            let started = self.call_step(rested, Exchange::fresh(), Event::Start);
            (
                GradingRunView {
                    submissions: run.submissions,
                    cache,
                    results,
                    exchange: started.0,
                },
                batch_action_of(started.1),
            )
        }
    }

    /// The next state and action of a batch. While a call is under way, the
    /// event belongs to it; when the call ends, its outcome is recorded and the
    /// batch goes on with the next submission.
    pub open spec fn next(&self, run: GradingRunView, event: Event) -> (
        GradingRunView,
        BatchActionView,
    ) {
        if run.in_flight() {
            let stepped = self.call_step(run, run.exchange, event);
            match stepped.1 {
                ActionView::Finish(outcome) => self.begin_next(
                    GradingRunView {
                        submissions: run.submissions,
                        cache: run.cache,
                        results: run.results.push(
                            settled(outcome, key_of(run.submissions[run.results.len() as int])),
                        ),
                        exchange: Exchange::fresh(),
                    },
                ),
                action => (
                    GradingRunView {
                        submissions: run.submissions,
                        cache: run.cache,
                        results: run.results,
                        exchange: stepped.0,
                    },
                    batch_action_of(action),
                ),
            }
        } else {
            self.begin_next(run)
        }
    }

    /// A batch keeps its submissions and the results it has, has never more
    /// results than submissions, and is over exactly when every submission has
    /// its result.
    pub proof fn lemma_next_keeps_results(&self, run: GradingRunView, event: Event)
        requires
            run.results.len() <= run.submissions.len(),
        ensures
            self.next(run, event).0.submissions == run.submissions,
            run.results.len() <= self.next(run, event).0.results.len() <= run.submissions.len(),
            self.next(run, event).0.results.subrange(0, run.results.len() as int) == run.results,
            self.next(run, event).1 is Done <==> self.next(run, event).0.results.len()
                == run.submissions.len(),
    {
        let config = self.grading_engine.config;
        let strategy = config.grading_strategy;
        if run.in_flight() {
            let stepped = self.call_step(run, run.exchange, event);
            match stepped.1 {
                ActionView::Finish(outcome) => {
                    let recorded = run.results.push(
                        settled(outcome, key_of(run.submissions[run.results.len() as int])),
                    );
                    lemma_reuse_extends(run.submissions, run.cache, recorded);
                    let after = reuse(run.submissions, run.cache, recorded).1;
                    assert(after.subrange(0, run.results.len() as int) =~= after.subrange(
                        0,
                        recorded.len() as int,
                    ).subrange(0, run.results.len() as int));
                    assert(recorded.subrange(0, run.results.len() as int) =~= run.results);
                    if after.len() < run.submissions.len() {
                        self.ai_client.lemma_first_step_sends(
                            request_of(config@, run.submissions[after.len() as int]),
                            strategy,
                        );
                    }
                },
                _ => {
                    assert(run.results.subrange(0, run.results.len() as int) =~= run.results);
                },
            }
        } else {
            lemma_reuse_extends(run.submissions, run.cache, run.results);
            let after = reuse(run.submissions, run.cache, run.results).1;
            if after.len() < run.submissions.len() {
                self.ai_client.lemma_first_step_sends(
                    request_of(config@, run.submissions[after.len() as int]),
                    strategy,
                );
            }
        }
    }

    /// A call that fails leaves its mark and does not stop the batch: where
    /// the call under way ends in an error, the submission gets the result that
    /// stands for the failure, in its place among the results.
    pub proof fn lemma_failed_call_is_recorded(
        &self,
        run: GradingRunView,
        event: Event,
        error: GradingErrorView,
    )
        requires
            run.in_flight(),
            self.call_step(run, run.exchange, event).1 == ActionView::Finish(Err(error)),
        ensures
            self.next(run, event).0.results.len() > run.results.len(),
            self.next(run, event).0.results[run.results.len() as int] == failed_result_of(
                key_of(run.submissions[run.results.len() as int]),
                error.message,
            ),
    {
        let recorded = run.results.push(
            settled(Err(error), key_of(run.submissions[run.results.len() as int])),
        );
        lemma_reuse_extends(run.submissions, run.cache, recorded);
        let after = reuse(run.submissions, run.cache, recorded).1;
        assert(after.subrange(0, recorded.len() as int)[run.results.len() as int]
            == after[run.results.len() as int]);
    }

    /// A batch comes to its end: from a state that a batch can be in, a step
    /// leads to such a state again, and unless the step ends the batch, fewer
    /// steps are left after it than before.
    pub proof fn lemma_next_progress(&self, run: GradingRunView, event: Event)
        requires
            run.wf(),
        ensures
            self.next(run, event).0.wf(),
            !(self.next(run, event).1 is Done) ==> self.next(run, event).0.steps_left()
                < run.steps_left(),
    {
        let config = self.grading_engine.config;
        let strategy = config.grading_strategy;
        let width = (2 * crate::grader::ai_client::MAX_ATTEMPTS + 2) as nat;
        self.lemma_next_keeps_results(run, event);
        let after = self.next(run, event).0;
        if run.in_flight() {
            let request = request_of(config@, run.submissions[run.results.len() as int]);
            self.ai_client.lemma_step_progress(request, strategy, run.exchange, event);
            let stepped = self.call_step(run, run.exchange, event);
            match stepped.1 {
                ActionView::Finish(outcome) => {
                    let recorded = run.results.push(
                        settled(outcome, key_of(run.submissions[run.results.len() as int])),
                    );
                    lemma_reuse_extends(run.submissions, run.cache, recorded);
                    if after.results.len() < run.submissions.len() {
                        self.ai_client.lemma_first_step_sends(
                            request_of(config@, run.submissions[after.results.len() as int]),
                            strategy,
                        );
                        let open_before = (run.submissions.len() - run.results.len()) as nat;
                        let open_after = (run.submissions.len() - after.results.len()) as nat;
                        assert(open_after * width <= (open_before - 1) * width)
                            by (nonlinear_arith)
                            requires
                                open_after <= open_before - 1,
                                width >= 0,
                        ;
                    }
                },
                _ => {},
            }
        } else {
            lemma_reuse_extends(run.submissions, run.cache, run.results);
            if after.results.len() < run.submissions.len() {
                self.ai_client.lemma_first_step_sends(
                    request_of(config@, run.submissions[after.results.len() as int]),
                    strategy,
                );
                let open_before = (run.submissions.len() - run.results.len()) as nat;
                let open_after = (run.submissions.len() - after.results.len()) as nat;
                assert(open_after * width <= open_before * width) by (nonlinear_arith)
                    requires
                        open_after <= open_before,
                        width >= 0,
                ;
            }
        }
    }

    /// Resuming is idempotent: where the earlier results are those of a full
    /// pass over the same submissions, each under the key of its submission,
    /// and no two submissions share a key, the resumed run is over at its
    /// first step, with the earlier results as its results and without a
    /// request to the backend.
    pub proof fn lemma_resume_is_idempotent(
        &self,
        submissions: Seq<StudentSubmissionView>,
        existing: Seq<GradingResultView>,
        event: Event,
    )
        requires
            existing.len() == submissions.len(),
            forall|i: int|
                0 <= i < submissions.len() ==> (#[trigger] existing[i]).filename == key_of(
                    submissions[i],
                ),
            forall|i: int, j: int|
                0 <= i < j < submissions.len() ==> key_of(submissions[i]) != key_of(
                    submissions[j],
                ),
        ensures
            self.next(
                GradingRunView {
                    submissions,
                    cache: existing,
                    results: Seq::empty(),
                    exchange: Exchange::fresh(),
                },
                event,
            ) == (
                GradingRunView {
                    submissions,
                    cache: Seq::empty(),
                    results: existing,
                    exchange: Exchange::fresh(),
                },
                BatchActionView::Done,
            ),
    {
        lemma_reuse_takes_all(submissions, existing, 0);
        assert(existing.skip(0) =~= existing);
        assert(existing.take(0) =~= Seq::<GradingResultView>::empty());
    }

    /// The grader that grades against `config` at the backend `model_endpoint`.
    pub fn new(model_endpoint: &str, config: &Config, app_config: Option<AppConfig>) -> (r: Result<
        Self,
        GradingError,
    >)
        ensures
            r is Ok,
            r->Ok_0.ai_client.wf(),
            r->Ok_0.ai_client.model_endpoint@ == model_endpoint@,
            r->Ok_0.ai_client.app_config == app_config,
            r->Ok_0.grading_engine.config@ == config@,
    {
        match AIClient::new(model_endpoint, app_config) {
            Ok(ai_client) => Ok(Grader { ai_client, grading_engine: GradingEngine::new(config) }),
            Err(e) => Err(e),
        }
    }

    /// The same grader with the bearer token `api_key` for its backend.
    pub fn with_api_key(self, api_key: String) -> (r: Self)
        ensures
            r.ai_client.model_endpoint == self.ai_client.model_endpoint,
            r.ai_client.backend == self.ai_client.backend,
            r.ai_client.app_config == self.ai_client.app_config,
            r.ai_client.api_key == api_key,
            r.grading_engine == self.grading_engine,
    {
        Grader {
            ai_client: self.ai_client.with_api_key(api_key),
            grading_engine: self.grading_engine,
        }
    }

    /// A run that grades every one of `submissions`.
    pub fn grade_submissions(&self, submissions: Vec<StudentSubmission>) -> (run: GradingRun)
        ensures
            run.submissions == submissions,
            run.cache@.len() == 0,
            run.results@.len() == 0,
            run.exchange == Exchange::fresh(),
    {
        GradingRun { submissions, cache: Vec::new(), results: Vec::new(), exchange: Exchange::new() }
    }

    /// A run that grades those of `submissions` for which `existing`, the
    /// results of an earlier run, holds no result, and takes the earlier
    /// result for the others.
    pub fn resume_grading(
        &self,
        submissions: Vec<StudentSubmission>,
        existing: Vec<GradingResult>,
    ) -> (run: GradingRun)
        ensures
            run.submissions == submissions,
            run.cache == existing,
            run.results@.len() == 0,
            run.exchange == Exchange::fresh(),
    {
        GradingRun { submissions, cache: existing, results: Vec::new(), exchange: Exchange::new() }
    }

    /// One step of a batch: from the state of the run and the event that has
    /// just happened to the next state and the next action.
    pub fn next_action(&self, run: GradingRun, event: Event) -> (r: (GradingRun, BatchAction))
        ensures
            (r.0@, r.1@) == self.next(run@, event),
    {
        let mut run = run;
        let in_flight = (run.exchange.phase == Phase::Awaiting || run.exchange.phase
            == Phase::Backoff) && run.results.len() < run.submissions.len();
        if in_flight {
            let position = run.results.len();
            let submission = &run.submissions[position];
            assert(views_of(run.submissions@)[position as int] == submission@);
            let (exchange, action) = self.grading_engine.grade_submission(
                &self.ai_client,
                submission,
                run.exchange,
                event,
            );
            match action {
                Action::Finish(outcome) => {
                    let result = settle(outcome, submission);
                    let ghost before = views_of(run.results@);
                    run.results.push(result);
                    assert(views_of(run.results@) =~= before.push(result@));
                    run.exchange = Exchange::new();
                },
                Action::SendChat(call) => {
                    run.exchange = exchange;
                    return (run, BatchAction::SendChat(call));
                },
                Action::SendGenerate(call) => {
                    run.exchange = exchange;
                    return (run, BatchAction::SendGenerate(call));
                },
                Action::Sleep { seconds } => {
                    run.exchange = exchange;
                    return (run, BatchAction::Sleep { seconds });
                },
            }
        }
        self.start_next(run)
    }

    /// What follows when no call is under way.
    pub fn start_next(&self, run: GradingRun) -> (r: (GradingRun, BatchAction))
        ensures
            (r.0@, r.1@) == self.begin_next(run@),
    {
        let mut run = run;
        reuse_cached(&run.submissions, &mut run.cache, &mut run.results);
        run.exchange = Exchange::new();
        if run.results.len() >= run.submissions.len() {
            return (run, BatchAction::Done);
        }
        let position = run.results.len();
        let submission = &run.submissions[position];
        assert(views_of(run.submissions@)[position as int] == submission@);
        proof {
            self.ai_client.lemma_first_step_sends(
                request_of(self.grading_engine.config@, submission@),
                self.grading_engine.config.grading_strategy,
            );
        }
        let (exchange, action) = self.grading_engine.grade_submission(
            &self.ai_client,
            submission,
            Exchange::new(),
            Event::Start,
        );
        run.exchange = exchange;
        let batch_action = match action {
            Action::SendChat(call) => BatchAction::SendChat(call),
            Action::SendGenerate(call) => BatchAction::SendGenerate(call),
            Action::Sleep { seconds } => BatchAction::Sleep { seconds },
            Action::Finish(_) => BatchAction::Done,
        };
        (run, batch_action)
    }
}

/// The result that stands for the submission `key` whose grading failed with
/// `error`.
pub fn failed_result(key: String, error: &GradingError) -> (r: GradingResult)
    ensures
        r@ == failed_result_of(key@, error.message@),
{
    let mut comment = String::from_str("Error during grading: ");
    comment.append(error.message.as_str());
    GradingResult { filename: key, correctness: 0, style: 0, edge_cases: 0, total: 0, comment }
}

/// The result that `outcome` leaves for `submission`.
pub fn settle(outcome: Result<GradingResult, GradingError>, submission: &StudentSubmission) -> (r:
    GradingResult)
    ensures
        r@ == settled(crate::grader::ai_client::graded_view(outcome), key_of(submission@)),
{
    match outcome {
        Ok(result) => result,
        Err(error) => failed_result(submission.get_main_filename(), &error),
    }
}

/// Takes the earlier result for the submission `key` out of `cache`, with
/// every other result of that name.
pub fn take_cached(cache: &mut Vec<GradingResult>, key: &str) -> (r: Option<GradingResult>)
    ensures
        match r {
            Some(earlier) => cached_result(views_of(old(cache)@), key@) == Some(earlier@)
                && views_of(final(cache)@) == without_key(views_of(old(cache)@), key@),
            None => cached_result(views_of(old(cache)@), key@) is None && final(cache)@ == old(
                cache,
            )@,
        },
{
    let ghost all = views_of(cache@);
    let mut at: usize = cache.len();
    let mut found: Option<GradingResult> = None;
    assert(all.subrange(0, at as int) =~= all);
    while at > 0
        invariant_except_break
            found is None,
            cached_result(all.subrange(0, at as int), key@) == cached_result(all, key@),
        invariant
            at <= cache@.len(),
            all == views_of(cache@),
            cache@ == old(cache)@,
        ensures
            at <= cache@.len(),
            all == views_of(cache@),
            cache@ == old(cache)@,
            match found {
                Some(earlier) => cached_result(all, key@) == Some(earlier@),
                None => cached_result(all, key@) is None,
            },
        decreases at,
    {
        let candidate = &cache[at - 1];
        proof {
            assert(all.subrange(0, at as int).last() == candidate@);
            assert(all.subrange(0, at as int).drop_last() =~= all.subrange(0, at - 1));
        }
        if same_text(candidate.filename.as_str(), key) {
            found = Some(candidate.clone());
            break;
        }
        at = at - 1;
    }
    let earlier = match found {
        Some(earlier) => earlier,
        None => {
            return None;
        },
    };
    let mut kept: Vec<GradingResult> = Vec::new();
    let mut i: usize = 0;
    assert(all.subrange(0, 0) =~= Seq::<GradingResultView>::empty());
    while i < cache.len()
        invariant
            i <= cache@.len(),
            all == views_of(cache@),
            cache@ == old(cache)@,
            views_of(kept@) == without_key(all.subrange(0, i as int), key@),
        decreases cache@.len() - i,
    {
        let candidate = &cache[i];
        proof {
            assert(all.subrange(0, i + 1).last() == candidate@);
            assert(all.subrange(0, i + 1).drop_last() =~= all.subrange(0, i as int));
        }
        if !same_text(candidate.filename.as_str(), key) {
            let ghost before = views_of(kept@);
            let copy = candidate.clone();
            kept.push(copy);
            assert(views_of(kept@) =~= before.push(candidate@));
        }
        i = i + 1;
    }
    assert(all.subrange(0, i as int) =~= all);
    *cache = kept;
    Some(earlier)
}

/// Lets the submissions that come next take their earlier results: each in
/// turn, until one has none.
pub fn reuse_cached(
    submissions: &Vec<StudentSubmission>,
    cache: &mut Vec<GradingResult>,
    results: &mut Vec<GradingResult>,
)
    ensures
        (views_of(final(cache)@), views_of(final(results)@)) == reuse(
            views_of(submissions@),
            views_of(old(cache)@),
            views_of(old(results)@),
        ),
{
    while results.len() < submissions.len()
        invariant
            reuse(views_of(submissions@), views_of(cache@), views_of(results@)) == reuse(
                views_of(submissions@),
                views_of(old(cache)@),
                views_of(old(results)@),
            ),
        ensures
            (views_of(cache@), views_of(results@)) == reuse(
                views_of(submissions@),
                views_of(old(cache)@),
                views_of(old(results)@),
            ),
        decreases submissions@.len() - results@.len(),
    {
        let submission = &submissions[results.len()];
        assert(views_of(submissions@)[results@.len() as int] == submission@);
        let key = submission.get_main_filename();
        match take_cached(cache, key.as_str()) {
            Some(earlier) => {
                let ghost before = views_of(results@);
                results.push(earlier);
                assert(views_of(results@) =~= before.push(earlier@));
            },
            None => {
                break;
            },
        }
    }
}

} // verus!
