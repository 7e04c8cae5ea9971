//! The stages of a conversion pipeline: a stage runs its steps in order and
//! stops early at the first step that asks to stop or fails.

use vstd::prelude::*;
use crate::config::Config;

verus! {

/// A step that went well.
#[derive(Debug, Clone, Copy, PartialEq, Eq, Structural)]
pub enum Success {
    Empty,
    Continue,
    /// A (possibly early) stop of the pipeline.
    Stop,
}

/// A step that failed.
#[derive(Debug, Clone, Copy, PartialEq, Eq, Structural)]
pub enum Failure {
    TodoError,
}

/// The outcome of a step.
pub type Signal = Result<Success, Failure>;

/// The stage that ended the pipeline, with its outcome.
#[derive(Debug, Clone, Copy, PartialEq, Eq, Structural)]
pub enum PipelineReportSuccess {
    Pre(Success),
    Mid(Success),
    Post(Success),
}

/// The stage that failed, with its failure.
#[derive(Debug, Clone, Copy, PartialEq, Eq, Structural)]
pub enum PipelineReportFailure {
    Pre(Failure),
    Mid(Failure),
    Post(Failure),
}

/// An outcome wrapped so that a fold stops at it when it asks to stop or
/// failed: those go to the error side, which holds the outcome itself.
pub open spec fn stop_early_wrapped(result: Signal) -> Result<Success, Signal> {
    match result {
        Ok(Success::Stop) => Err(Ok(Success::Stop)),
        Ok(s) => Ok(s),
        Err(e) => Err(Err(e)),
    }
}

/// The outcome a wrapped outcome holds.
pub open spec fn unwrapped(wrapper: Result<Success, Signal>) -> Signal {
    match wrapper {
        Ok(s) => Ok(s),
        Err(inner) => inner,
    }
}

/// Wraps an outcome (see [`stop_early_wrapped`]).
pub fn make_stop_early_wrapper(result: Signal) -> (r: Result<Success, Signal>)
    ensures
        r == stop_early_wrapped(result),
{
    match result {
        Ok(Success::Stop) => Err(Ok(Success::Stop)),
        Ok(ok) => Ok(ok),
        Err(e) => Err(Err(e)),
    }
}

/// Unwraps a wrapped outcome (see [`unwrapped`]).
pub fn flatten_stop_early_wrapper(wrapper: Result<Success, Signal>) -> (r: Signal)
    ensures
        r == unwrapped(wrapper),
{
    match wrapper {
        Ok(ok) => Ok(ok),
        Err(Ok(ok)) => Ok(ok),
        Err(Err(e)) => Err(e),
    }
}

/// Unwrapping a wrapped outcome gives it back.
pub proof fn lemma_flatten_make_round_trip(result: Signal)
    ensures
        unwrapped(stop_early_wrapped(result)) == result,
{
}

/// Whether an outcome ends its stage: a stop, or a failure.
pub open spec fn halts(s: Signal) -> bool {
    s is Err || s == Ok::<Success, Failure>(Success::Stop)
}

/// `outs` are the outcomes of the steps a stage of `n` steps ran: the steps
/// run in order, and the stage ends after the first step that halts, or
/// after the last step.
pub open spec fn is_stage_run(outs: Seq<Signal>, n: nat) -> bool {
    &&& outs.len() <= n
    &&& forall|i: int| 0 <= i < outs.len() - 1 ==> !halts(#[trigger] outs[i])
    &&& outs.len() < n ==> outs.len() > 0 && halts(outs.last())
}

/// The outcome of the preparation stage from the outcomes of the steps it
/// ran: the stop or failure that ended it; otherwise `Empty`.
pub open spec fn prepare_outcome(outs: Seq<Signal>) -> Signal {
    if outs.len() > 0 && halts(outs.last()) {
        outs.last()
    } else {
        Ok(Success::Empty)
    }
}

/// The outcome of the image-processing stage from the outcomes of the steps
/// it ran: that of the last step run (the one that halted, if any); `Empty`
/// when there are no steps.
pub open spec fn processing_outcome(outs: Seq<Signal>) -> Signal {
    if outs.len() == 0 {
        Ok(Success::Empty)
    } else {
        outs.last()
    }
}

/// The report of a pipeline from the outcomes of its two stages: a stop or
/// failure of the preparation ends it there; otherwise the image-processing
/// stage decides.
pub open spec fn pipeline_report(pre: Signal, mid: Signal) -> Result<PipelineReportSuccess, PipelineReportFailure> {
    match pre {
        Ok(Success::Stop) => Ok(PipelineReportSuccess::Pre(Success::Stop)),
        Err(e) => Err(PipelineReportFailure::Pre(e)),
        Ok(_) => match mid {
            Ok(s) => Ok(PipelineReportSuccess::Mid(s)),
            Err(e) => Err(PipelineReportFailure::Mid(e)),
        },
    }
}

/// A pipeline for a single image: the image buffer and the settings its
/// steps read.
pub struct LinearSingleImagePipeline<B> {
    pub buffer: B,
    pub config: Config,
}

/// `outs` are outcomes the preparation steps `steps` gave, as a stage runs
/// them (see [`is_stage_run`]), each step called with the settings.
pub open spec fn prepare_steps_ran<F: Fn(&Config) -> Signal>(steps: Seq<F>, config: &Config, outs: Seq<Signal>) -> bool {
    &&& is_stage_run(outs, steps.len())
    &&& forall|i: int| 0 <= i < outs.len() ==> call_ensures(steps[i], (config,), #[trigger] outs[i])
}

/// `outs` are outcomes the image-processing steps `steps` gave, as a stage
/// runs them (see [`is_stage_run`]), each step called with the buffer and
/// the settings.
pub open spec fn processing_steps_ran<B, G: Fn(&B, &Config) -> Signal>(
    steps: Seq<G>,
    buffer: &B,
    config: &Config,
    outs: Seq<Signal>,
) -> bool {
    &&& is_stage_run(outs, steps.len())
    &&& forall|i: int| 0 <= i < outs.len() ==> call_ensures(steps[i], (buffer, config), #[trigger] outs[i])
}

impl<B> LinearSingleImagePipeline<B> {
    /// Runs the preparation steps in order until one stops or fails, and
    /// reports that stop or failure; `Empty` when every step went on.
    pub fn run_prepare<F: Fn(&Config) -> Signal>(&mut self, steps: &Vec<F>) -> (r: Signal)
        requires
            forall|i: int| 0 <= i < steps@.len() ==> call_requires(steps@[i], (&old(self).config,)),
        ensures
            *final(self) == *old(self),
            exists|outs: Seq<Signal>|
                #[trigger] prepare_steps_ran(steps@, &old(self).config, outs) && r == prepare_outcome(outs),
    {
        let ghost mut outs: Seq<Signal> = Seq::empty();
        let mut i: usize = 0;
        while i < steps.len()
            invariant
                i <= steps.len(),
                outs.len() == i,
                forall|k: int| 0 <= k < steps@.len() ==> call_requires(steps@[k], (&self.config,)),
                forall|k: int| 0 <= k < i ==> call_ensures(steps@[k], (&self.config,), #[trigger] outs[k]),
                forall|k: int| 0 <= k < i ==> !halts(#[trigger] outs[k]),
            decreases steps.len() - i,
        {
            let result = (steps[i])(&self.config);
            let ghost next = outs.push(result);
            match make_stop_early_wrapper(result) {
                Ok(_) => {},
                Err(halted) => {
                    assert(prepare_steps_ran(steps@, &self.config, next));
                    return flatten_stop_early_wrapper(Err(halted));
                },
            }
            proof {
                outs = next;
            }
            i += 1;
        }
        assert(prepare_steps_ran(steps@, &self.config, outs));
        flatten_stop_early_wrapper(Ok(Success::Empty))
    }

    /// Runs the image-processing steps in order until one stops or fails,
    /// and reports the outcome of the last step it ran; `Empty` when there
    /// are no steps.
    pub fn run_image_processing<G: Fn(&B, &Config) -> Signal>(&mut self, steps: &Vec<G>) -> (r: Signal)
        requires
            forall|i: int| 0 <= i < steps@.len() ==> call_requires(steps@[i], (&old(self).buffer, &old(self).config)),
        ensures
            *final(self) == *old(self),
            exists|outs: Seq<Signal>|
                #[trigger] processing_steps_ran(steps@, &old(self).buffer, &old(self).config, outs) && r
                    == processing_outcome(outs),
    {
        let ghost mut outs: Seq<Signal> = Seq::empty();
        let mut last: Success = Success::Empty;
        let mut i: usize = 0;
        while i < steps.len()
            invariant
                i <= steps.len(),
                outs.len() == i,
                forall|k: int| 0 <= k < steps@.len() ==> call_requires(steps@[k], (&self.buffer, &self.config)),
                forall|k: int| 0 <= k < i ==> call_ensures(steps@[k], (&self.buffer, &self.config), #[trigger] outs[k]),
                forall|k: int| 0 <= k < i ==> !halts(#[trigger] outs[k]),
                i > 0 ==> outs.last() == Ok::<Success, Failure>(last),
                i == 0 ==> last == Success::Empty,
            decreases steps.len() - i,
        {
            let result = (steps[i])(&self.buffer, &self.config);
            let ghost next = outs.push(result);
            match make_stop_early_wrapper(result) {
                Ok(s) => {
                    last = s;
                },
                Err(halted) => {
                    assert(processing_steps_ran(steps@, &self.buffer, &self.config, next));
                    return flatten_stop_early_wrapper(Err(halted));
                },
            }
            proof {
                outs = next;
            }
            i += 1;
        }
        assert(processing_steps_ran(steps@, &self.buffer, &self.config, outs));
        flatten_stop_early_wrapper(Ok(last))
    }

    /// Runs the conversion step, when there is one; without one the stage
    /// fails.
    pub fn run_convert<H: Fn(&B, &Config) -> Signal>(&mut self, convert_step: Option<H>) -> (r: Signal)
        requires
            convert_step matches Some(f) ==> call_requires(f, (&old(self).buffer, &old(self).config)),
        ensures
            *final(self) == *old(self),
            match convert_step {
                Some(f) => call_ensures(f, (&old(self).buffer, &old(self).config), r),
                None => r == Err::<Success, Failure>(Failure::TodoError),
            },
    {
        match convert_step {
            Some(func) => func(&self.buffer, &self.config),
            None => Err(Failure::TodoError),
        }
    }

    /// Runs the preparation stage and, unless it stopped or failed, the
    /// image-processing stage (see [`pipeline_report`]); the conversion step
    /// is not run.
    pub fn run_all_stages<F: Fn(&Config) -> Signal, G: Fn(&B, &Config) -> Signal, H: Fn(&B, &Config) -> Signal>(
        &mut self,
        pre: &Vec<F>,
        mid: &Vec<G>,
        _fin: Option<H>,
    ) -> (r: Result<PipelineReportSuccess, PipelineReportFailure>)
        requires
            forall|i: int| 0 <= i < pre@.len() ==> call_requires(pre@[i], (&old(self).config,)),
            forall|i: int| 0 <= i < mid@.len() ==> call_requires(mid@[i], (&old(self).buffer, &old(self).config)),
        ensures
            *final(self) == *old(self),
            exists|p: Seq<Signal>, m: Seq<Signal>|
                #[trigger] prepare_steps_ran(pre@, &old(self).config, p) && (!halts(prepare_outcome(p))
                    ==> processing_steps_ran(mid@, &old(self).buffer, &old(self).config, m)) && r
                    == #[trigger] pipeline_report(prepare_outcome(p), processing_outcome(m)),
    {
        let pre_image_phase = self.run_prepare(pre);
        let ghost p = choose|p: Seq<Signal>|
            #[trigger] prepare_steps_ran(pre@, &self.config, p) && pre_image_phase == prepare_outcome(p);
        match pre_image_phase {
            Ok(Success::Stop) => {
                assert(pipeline_report(prepare_outcome(p), processing_outcome(Seq::empty())) == Ok::<PipelineReportSuccess, PipelineReportFailure>(PipelineReportSuccess::Pre(Success::Stop)));
                return Ok(PipelineReportSuccess::Pre(Success::Stop));
            },
            Ok(_) => {},
            Err(e) => {
                assert(pipeline_report(prepare_outcome(p), processing_outcome(Seq::empty())) == Err::<PipelineReportSuccess, PipelineReportFailure>(PipelineReportFailure::Pre(e)));
                return Err(PipelineReportFailure::Pre(e));
            },
        }
        let image_phase = self.run_image_processing(mid);
        let ghost m = choose|m: Seq<Signal>|
            #[trigger] processing_steps_ran(mid@, &self.buffer, &self.config, m) && image_phase == processing_outcome(m);
        let r = match image_phase {
            Ok(s) => Ok(PipelineReportSuccess::Mid(s)),
            Err(e) => Err(PipelineReportFailure::Mid(e)),
        };
        assert(pipeline_report(prepare_outcome(p), processing_outcome(m)) == r);
        r
    }
}

} // verus!
