use crate::command::Command;
use crate::error::{chained_failure_reason, CommandError};
use vstd::prelude::*;

verus! {

// A command line with several stages is run one stage at a time. A
// `PipelineRun` decides, from what each stage ended with, what happens next:
// the caller performs each `RunStage` action (starting a process or calling a
// builtin handler, with the input and capture it names) and hands the outcome
// back to `step`, until the run ends with `Finish`.

/// What a stage or a pipeline ended with: an exit code and the captured
/// bytes, or the reason it could not be run.
pub type Outcome = Result<(i32, Seq<u8>), Seq<char>>;

/// What stage `k` ends with when fed `input` (`None`: the shell's own input)
/// and told whether its output is captured.
pub type StageBehaviour = spec_fn(int, Option<Seq<u8>>, bool) -> Outcome;

pub open spec fn bytes_view(b: Option<Vec<u8>>) -> Option<Seq<u8>> {
    match b {
        Some(v) => Some(v@),
        None => None,
    }
}

pub open spec fn outcome_view(r: Result<(i32, Vec<u8>), CommandError>) -> Outcome {
    match r {
        Ok((code, out)) => Ok((code, out@)),
        Err(e) => Err(e.reason_spec()),
    }
}

/// Stage `k` of `count` captures its output when a later stage reads it, or
/// when the caller asked for the pipeline's output.
pub open spec fn captures(count: int, k: int, capture_output: bool) -> bool {
    k + 1 < count || capture_output
}

/// The outcome of stages `k..count` when stage `k` is fed `input`: each stage
/// but the last must exit with 0, and its output is the next one's input.
pub open spec fn pipeline_outcome(
    stage: StageBehaviour,
    count: int,
    k: int,
    input: Option<Seq<u8>>,
    capture_output: bool,
) -> Outcome
    decreases count - k,
{
    let o = stage(k, input, captures(count, k, capture_output));
    if k + 1 >= count {
        o
    } else {
        match o {
            Err(e) => Err(e),
            Ok((code, out)) => if code != 0 {
                Err(chained_failure_reason())
            } else {
                pipeline_outcome(stage, count, k + 1, Some(out), capture_output)
            },
        }
    }
}

/// The state of a run: how many stages there are, which one runs now,
/// whether the last one's output is captured, and whether the run is over.
pub struct RunState {
    pub stage_count: int,
    pub next: int,
    pub capture_output: bool,
    pub done: bool,
}

impl RunState {
    /// A run that waits for the outcome of a stage.
    pub open spec fn is_running(self) -> bool {
        0 <= self.next < self.stage_count && !self.done
    }
}

/// The next thing to do, as the machine plans it.
pub enum PlannedStep {
    Run { index: int, input: Option<Seq<u8>>, capture_output: bool },
    Finish(Outcome),
}

/// The next thing to do.
pub enum PipelineAction {
    /// Run stage `index`, fed `input` (`None`: the shell's own input), with its
    /// output captured or not.
    RunStage { index: usize, input: Option<Vec<u8>>, capture_output: bool },
    /// The pipeline is over, with this result.
    Finish(Result<(i32, Vec<u8>), CommandError>),
}

impl View for PipelineAction {
    type V = PlannedStep;

    open spec fn view(&self) -> PlannedStep {
        match self {
            PipelineAction::RunStage { index, input, capture_output } => PlannedStep::Run {
                index: *index as int,
                input: bytes_view(*input),
                capture_output: *capture_output,
            },
            PipelineAction::Finish(r) => PlannedStep::Finish(outcome_view(*r)),
        }
    }
}

/// What the machine does with the outcome `o` of the stage that ran.
pub open spec fn step_spec(s: RunState, o: Outcome) -> (RunState, PlannedStep) {
    let over = RunState { done: true, ..s };
    if s.next + 1 >= s.stage_count {
        (over, PlannedStep::Finish(o))
    } else {
        match o {
            Err(e) => (over, PlannedStep::Finish(Err(e))),
            Ok((code, out)) => if code != 0 {
                (over, PlannedStep::Finish(Err(chained_failure_reason())))
            } else {
                (
                    RunState { next: s.next + 1, ..s },
                    PlannedStep::Run {
                        index: s.next + 1,
                        input: Some(out),
                        capture_output: captures(s.stage_count, s.next + 1, s.capture_output),
                    },
                )
            },
        }
    }
}

/// A pipeline being run.
pub struct PipelineRun {
    stage_count: usize,
    next: usize,
    capture_output: bool,
    done: bool,
}

impl View for PipelineRun {
    type V = RunState;

    closed spec fn view(&self) -> RunState {
        RunState {
            stage_count: self.stage_count as int,
            next: self.next as int,
            capture_output: self.capture_output,
            done: self.done,
        }
    }
}

impl PipelineRun {
    /// Starts a run of `stage_count` stages: the first is fed `input` and the
    /// last one's output is captured when `capture_output` holds.
    pub fn start(stage_count: usize, input: Option<Vec<u8>>, capture_output: bool) -> (r: (
        PipelineRun,
        PipelineAction,
    ))
        requires
            stage_count >= 1,
        ensures
            r.0@ == (RunState {
                stage_count: stage_count as int,
                next: 0,
                capture_output,
                done: false,
            }),
            r.1@ == (PlannedStep::Run {
                index: 0,
                input: bytes_view(input),
                capture_output: captures(stage_count as int, 0, capture_output),
            }),
    {
        let run = PipelineRun { stage_count, next: 0, capture_output, done: false };
        let action = PipelineAction::RunStage {
            index: 0,
            input,
            capture_output: stage_count > 1 || capture_output,
        };
        (run, action)
    }

    /// Whether the run is over.
    pub fn is_done(&self) -> (r: bool)
        ensures
            r == self@.done,
    {
        self.done
    }

    /// Takes the outcome of the stage that ran and says what comes next.
    pub fn step(&mut self, outcome: Result<(i32, Vec<u8>), CommandError>) -> (action:
        PipelineAction)
        requires
            old(self)@.is_running(),
        ensures
            (final(self)@, action@) == step_spec(old(self)@, outcome_view(outcome)),
    {
        if self.next + 1 >= self.stage_count {
            self.done = true;
            return PipelineAction::Finish(outcome);
        }
        match outcome {
            Err(e) => {
                self.done = true;
                PipelineAction::Finish(Err(e))
            },
            Ok((code, out)) => {
                if code != 0 {
                    self.done = true;
                    PipelineAction::Finish(Err(CommandError::chained_failure()))
                } else {
                    self.next = self.next + 1;
                    PipelineAction::RunStage {
                        index: self.next,
                        input: Some(out),
                        capture_output: self.next + 1 < self.stage_count || self.capture_output,
                    }
                }
            },
        }
    }
}

/// A run that is given, for each stage it starts, the outcome that stage
/// has, ends with the outcome of the pipeline: each step either finishes with
/// it or moves on to the next stage with the same pipeline still ahead.
pub proof fn lemma_step_follows_pipeline(
    s: RunState,
    input: Option<Seq<u8>>,
    stage: StageBehaviour,
)
    requires
        s.is_running(),
    ensures
        ({
            let (s2, planned) = step_spec(
                s,
                stage(s.next, input, captures(s.stage_count, s.next, s.capture_output)),
            );
            match planned {
                PlannedStep::Finish(r) => s2.done && r == pipeline_outcome(
                    stage,
                    s.stage_count,
                    s.next,
                    input,
                    s.capture_output,
                ),
                PlannedStep::Run { index, input: next_input, capture_output } => {
                    &&& s2.is_running()
                    &&& index == s2.next
                    &&& index == s.next + 1
                    &&& s2.stage_count == s.stage_count
                    &&& s2.capture_output == s.capture_output
                    &&& capture_output == captures(s.stage_count, index, s.capture_output)
                    &&& pipeline_outcome(stage, s.stage_count, s.next, input, s.capture_output)
                        == pipeline_outcome(
                        stage,
                        s.stage_count,
                        index,
                        next_input,
                        s.capture_output,
                    )
                },
            }
        }),
{
}

/// Applies each transformation of `ts` in order, the first one first.
pub open spec fn apply_in_order(ts: Seq<spec_fn(Seq<u8>) -> Seq<u8>>, x: Seq<u8>) -> Seq<u8>
    decreases ts.len(),
{
    if ts.len() == 0 {
        x
    } else {
        apply_in_order(ts.drop_first(), ts[0](x))
    }
}

/// The exit code of stage `k` of `count` in a run that reaches the last
/// stage: 0 before it, `last_code` for it.
pub open spec fn exit_code_at(count: int, k: int, last_code: i32) -> i32 {
    if k + 1 < count {
        0i32
    } else {
        last_code
    }
}

/// A pipeline whose stages each turn their input bytes into output bytes by a
/// fixed transformation, all but the last exiting with 0, ends with the last
/// stage's exit code and, as its output, the transformations applied in the
/// order the stages are written to what the first stage read (`initial`,
/// whether it was fed or read from the shell's own input).
pub proof fn lemma_pipeline_composes(
    stage: StageBehaviour,
    ts: Seq<spec_fn(Seq<u8>) -> Seq<u8>>,
    input: Option<Seq<u8>>,
    initial: Seq<u8>,
    last_code: i32,
    capture_output: bool,
)
    requires
        ts.len() >= 1,
        forall|c: bool|
            #[trigger] stage(0, input, c) == Ok::<(i32, Seq<u8>), Seq<char>>(
                (exit_code_at(ts.len() as int, 0, last_code), ts[0](initial)),
            ),
        forall|k: int, x: Seq<u8>, c: bool|
            1 <= k < ts.len() ==> #[trigger] stage(k, Some(x), c) == Ok::<
                (i32, Seq<u8>),
                Seq<char>,
            >((exit_code_at(ts.len() as int, k, last_code), ts[k](x))),
    ensures
        pipeline_outcome(stage, ts.len() as int, 0, input, capture_output) == Ok::<
            (i32, Seq<u8>),
            Seq<char>,
        >((last_code, apply_in_order(ts, initial))),
{
    let n = ts.len() as int;
    let y = ts[0](initial);
    assert(stage(0, input, captures(n, 0, capture_output)) == Ok::<(i32, Seq<u8>), Seq<char>>(
        (exit_code_at(n, 0, last_code), y),
    ));
    assert(apply_in_order(ts, initial) == apply_in_order(ts.drop_first(), y));
    if n > 1 {
        lemma_pipeline_composes_from(stage, ts, 1, y, last_code, capture_output);
        assert(ts.drop_first() =~= ts.subrange(1, n));
    } else {
        assert(ts.drop_first() =~= Seq::<spec_fn(Seq<u8>) -> Seq<u8>>::empty());
    }
}

proof fn lemma_pipeline_composes_from(
    stage: StageBehaviour,
    ts: Seq<spec_fn(Seq<u8>) -> Seq<u8>>,
    k: int,
    x: Seq<u8>,
    last_code: i32,
    capture_output: bool,
)
    requires
        1 <= k < ts.len(),
        forall|j: int, y: Seq<u8>, c: bool|
            1 <= j < ts.len() ==> #[trigger] stage(j, Some(y), c) == Ok::<
                (i32, Seq<u8>),
                Seq<char>,
            >((exit_code_at(ts.len() as int, j, last_code), ts[j](y))),
    ensures
        pipeline_outcome(stage, ts.len() as int, k, Some(x), capture_output) == Ok::<
            (i32, Seq<u8>),
            Seq<char>,
        >((last_code, apply_in_order(ts.subrange(k, ts.len() as int), x))),
    decreases ts.len() - k,
{
    let n = ts.len() as int;
    let rest = ts.subrange(k, n);
    assert(stage(k, Some(x), captures(n, k, capture_output)) == Ok::<(i32, Seq<u8>), Seq<char>>(
        (exit_code_at(n, k, last_code), ts[k](x)),
    ));
    assert(rest.len() == n - k);
    assert(rest[0] == ts[k]);
    assert(apply_in_order(rest, x) == apply_in_order(rest.drop_first(), ts[k](x)));
    if k + 1 < n {
        lemma_pipeline_composes_from(stage, ts, k + 1, ts[k](x), last_code, capture_output);
        assert(rest.drop_first() =~= ts.subrange(k + 1, n));
    } else {
        assert(rest.drop_first() =~= Seq::<spec_fn(Seq<u8>) -> Seq<u8>>::empty());
        assert(apply_in_order(rest.drop_first(), ts[k](x)) == ts[k](x));
    }
}

/// What stage `j` is fed in a run whose first stage is fed `input` and whose
/// stages before `j` gave the outputs `outs`.
pub open spec fn input_of_stage(input: Option<Seq<u8>>, outs: Seq<Seq<u8>>, j: int) -> Option<
    Seq<u8>,
> {
    if j == 0 {
        input
    } else {
        Some(outs[j - 1])
    }
}

/// When, in a run, the stages before stage `k` (not the last) exit with 0
/// giving the outputs `outs`, and stage `k` exits with a code other than 0,
/// the pipeline fails with the chained-failure error whatever the later
/// stages would do: its outcome is the same for every behaviour of theirs, so
/// none of them is run.
pub proof fn lemma_failed_stage_stops_pipeline(
    stage: StageBehaviour,
    count: int,
    k: int,
    input: Option<Seq<u8>>,
    outs: Seq<Seq<u8>>,
    capture_output: bool,
)
    requires
        0 <= k < count - 1,
        outs.len() == k,
        forall|j: int|
            0 <= j < k ==> #[trigger] stage(j, input_of_stage(input, outs, j), true) == Ok::<
                (i32, Seq<u8>),
                Seq<char>,
            >((0i32, outs[j])),
        stage(k, input_of_stage(input, outs, k), true) matches Ok((code, _)) && code != 0,
    ensures
        forall|later: StageBehaviour|
            (forall|j: int|
                0 <= j <= k ==> #[trigger] later(j, input_of_stage(input, outs, j), true) == stage(
                    j,
                    input_of_stage(input, outs, j),
                    true,
                )) ==> pipeline_outcome(later, count, 0, input, capture_output) == Err::<
                (i32, Seq<u8>),
                Seq<char>,
            >(chained_failure_reason()),
{
    assert forall|later: StageBehaviour|
        (forall|j: int|
            0 <= j <= k ==> #[trigger] later(j, input_of_stage(input, outs, j), true) == stage(
                j,
                input_of_stage(input, outs, j),
                true,
            )) implies pipeline_outcome(later, count, 0, input, capture_output) == Err::<
        (i32, Seq<u8>),
        Seq<char>,
    >(chained_failure_reason()) by {
        lemma_failed_stage_from(stage, later, count, k, 0, input, outs, capture_output);
    }
}

proof fn lemma_failed_stage_from(
    stage: StageBehaviour,
    later: StageBehaviour,
    count: int,
    k: int,
    j: int,
    input: Option<Seq<u8>>,
    outs: Seq<Seq<u8>>,
    capture_output: bool,
)
    requires
        0 <= j <= k < count - 1,
        outs.len() == k,
        forall|i: int|
            0 <= i < k ==> #[trigger] stage(i, input_of_stage(input, outs, i), true) == Ok::<
                (i32, Seq<u8>),
                Seq<char>,
            >((0i32, outs[i])),
        stage(k, input_of_stage(input, outs, k), true) matches Ok((code, _)) && code != 0,
        forall|i: int|
            0 <= i <= k ==> #[trigger] later(i, input_of_stage(input, outs, i), true) == stage(
                i,
                input_of_stage(input, outs, i),
                true,
            ),
    ensures
        pipeline_outcome(later, count, j, input_of_stage(input, outs, j), capture_output) == Err::<
            (i32, Seq<u8>),
            Seq<char>,
        >(chained_failure_reason()),
    decreases k - j,
{
    let x = input_of_stage(input, outs, j);
    assert(captures(count, j, capture_output));
    assert(later(j, x, true) == stage(j, x, true));
    if j < k {
        assert(stage(j, x, true) == Ok::<(i32, Seq<u8>), Seq<char>>((0i32, outs[j])));
        assert(input_of_stage(input, outs, j + 1) == Some(outs[j]));
        lemma_failed_stage_from(stage, later, count, k, j + 1, input, outs, capture_output);
    }
}

/// A run whose stage, not the last, ends with a code other than 0 finishes
/// with the chained-failure error and plans no further stage.
pub proof fn lemma_failed_stage_finishes_run(s: RunState, code: i32, out: Seq<u8>)
    requires
        s.is_running(),
        s.next + 1 < s.stage_count,
        code != 0,
    ensures
        step_spec(s, Ok((code, out))).0.done,
        step_spec(s, Ok((code, out))).1 == PlannedStep::Finish(
            Err::<(i32, Seq<u8>), Seq<char>>(chained_failure_reason()),
        ),
{
}

/// The outcome of a command tree run by the recursive rule: a pipe runs its
/// first command with the output captured, stops unless it exited with 0, and
/// runs the rest fed with that output; a single stage is run as asked. The
/// stages are numbered left to right from `offset`.
pub open spec fn tree_outcome<H>(
    cmd: Command<H>,
    offset: int,
    stage: StageBehaviour,
    input: Option<Seq<u8>>,
    capture_output: bool,
) -> Outcome
    decreases cmd,
{
    match cmd {
        Command::Pipe(p) => match tree_outcome(*p.first, offset, stage, input, true) {
            Err(e) => Err(e),
            Ok((code, out)) => if code != 0 {
                Err(chained_failure_reason())
            } else {
                tree_outcome(
                    *p.rest,
                    offset + p.first.stages().len(),
                    stage,
                    Some(out),
                    capture_output,
                )
            },
        },
        _ => stage(offset, input, capture_output),
    }
}

proof fn lemma_pipeline_split(
    stage: StageBehaviour,
    count: int,
    middle: int,
    k: int,
    input: Option<Seq<u8>>,
    capture_output: bool,
)
    requires
        k < middle < count,
    ensures
        pipeline_outcome(stage, count, k, input, capture_output) == match pipeline_outcome(
            stage,
            middle,
            k,
            input,
            true,
        ) {
            Err(e) => Err(e),
            Ok((code, out)) => if code != 0 {
                Err(chained_failure_reason())
            } else {
                pipeline_outcome(stage, count, middle, Some(out), capture_output)
            },
        },
    decreases middle - k,
{
    let o = stage(k, input, true);
    assert(captures(count, k, capture_output));
    assert(captures(middle, k, true));
    if k + 1 < middle {
        match o {
            Ok((code, out)) => {
                if code == 0 {
                    lemma_pipeline_split(stage, count, middle, k + 1, Some(out), capture_output);
                }
            },
            Err(_) => {},
        }
    }
}

/// Running a command tree by the recursive rule is running its stages one
/// after the other, left to right, as a `PipelineRun` does.
pub proof fn lemma_tree_runs_its_stages<H>(
    cmd: Command<H>,
    offset: int,
    stage: StageBehaviour,
    input: Option<Seq<u8>>,
    capture_output: bool,
)
    ensures
        tree_outcome(cmd, offset, stage, input, capture_output) == pipeline_outcome(
            stage,
            offset + cmd.stages().len(),
            offset,
            input,
            capture_output,
        ),
    decreases cmd,
{
    cmd.lemma_stages_nonempty();
    match cmd {
        Command::Pipe(p) => {
            let first = *p.first;
            let rest = *p.rest;
            first.lemma_stages_nonempty();
            rest.lemma_stages_nonempty();
            let middle = offset + first.stages().len();
            let count = middle + rest.stages().len();
            assert(cmd.stages().len() == first.stages().len() + rest.stages().len());
            lemma_tree_runs_its_stages(first, offset, stage, input, true);
            match tree_outcome(first, offset, stage, input, true) {
                Ok((code, out)) => {
                    lemma_tree_runs_its_stages(rest, middle, stage, Some(out), capture_output);
                },
                Err(_) => {},
            }
            lemma_pipeline_split(stage, count, middle, offset, input, capture_output);
        },
        _ => {
            assert(cmd.stages().len() == 1);
        },
    }
}

} // verus!
