//! Pipelines: commands run one after the other, each fed the output of the
//! one before it.
//!
//! The run itself is a conversation.  [`PipelineExecutor::execute`] says
//! which stage to run first; the caller runs it and reports what came of
//! it to [`PipelineExecutor::advance`], which says what to do next, until
//! the answer is [`PipelineStep::Done`].

use crate::config::{CommandConfig, CommandConfigView};
use crate::error::{ExecuteError, IoErrorKind};
use crate::output::ProcessOutput;
use vstd::prelude::*;
use vstd::string::StringExecFns;

verus! {

/// One command of a pipeline.
#[derive(Debug)]
pub struct PipelineStage {
    /// The command to run.
    pub config: CommandConfig,
    /// Whether the command runs on its own, without the output of the stage
    /// before it as its input.
    pub ignore_input: bool,
}

impl PipelineStage {
    /// A stage that runs `config` and reads the output of the stage before
    /// it.
    pub fn new(config: CommandConfig) -> (stage: Self)
        ensures
            stage.config == config,
            !stage.ignore_input,
    {
        PipelineStage { config, ignore_input: false }
    }

    /// The same stage, reading its predecessor's output or not.
    pub fn ignore_input(self, ignore: bool) -> (stage: Self)
        ensures
            stage.config == self.config,
            stage.ignore_input == ignore,
    {
        PipelineStage { config: self.config, ignore_input: ignore }
    }
}

impl Clone for PipelineStage {
    fn clone(&self) -> (copy: Self)
        ensures
            copy.config@ == self.config@,
            copy.ignore_input == self.ignore_input,
    {
        PipelineStage { config: self.config.clone(), ignore_input: self.ignore_input }
    }
}

/// An ordered chain of stages.
#[derive(Debug)]
pub struct Pipeline {
    stages: Vec<PipelineStage>,
}

impl View for Pipeline {
    type V = Seq<PipelineStage>;

    closed spec fn view(&self) -> Seq<PipelineStage> {
        self.stages@
    }
}

/// The parts written one after the other with `sep` between neighbours.
pub open spec fn join_text(parts: Seq<Seq<char>>, sep: Seq<char>) -> Seq<char>
    decreases parts.len(),
{
    if parts.len() == 0 {
        Seq::empty()
    } else if parts.len() == 1 {
        parts[0]
    } else {
        join_text(parts.drop_last(), sep) + sep + parts.last()
    }
}

/// A command as one would type it: the program, then each argument after a
/// space.
pub open spec fn command_text(config: CommandConfigView) -> Seq<char> {
    join_text(seq![config.program] + config.args, " "@)
}

/// The commands of the stages as one would type them.
pub open spec fn stage_texts(stages: Seq<PipelineStage>) -> Seq<Seq<char>> {
    Seq::new(stages.len(), |k: int| command_text(stages[k].config@))
}

/// A pipeline as one would type it: the commands with ` | ` between them.
pub open spec fn pipeline_text(stages: Seq<PipelineStage>) -> Seq<char> {
    join_text(stage_texts(stages), " | "@)
}

/// Writing one more part after at least one adds the separator and the
/// part.
pub proof fn lemma_join_text_push(parts: Seq<Seq<char>>, part: Seq<char>, sep: Seq<char>)
    requires
        parts.len() >= 1,
    ensures
        join_text(parts.push(part), sep) == join_text(parts, sep) + sep + part,
{
    assert(parts.push(part).drop_last() =~~= parts);
}

/// Appends to `out` the command of `config` as one would type it.
fn append_command_text(out: &mut String, config: &CommandConfig)
    ensures
        final(out)@ == old(out)@ + command_text(config@),
{
    out.append(config.program());
    let args = config.args();
    let ghost all = seq![config@.program] + config@.args;
    let ghost mut written: Seq<Seq<char>> = seq![config@.program];
    assert(out@ =~= old(out)@ + join_text(written, " "@));
    assert(written =~~= all.take(1));
    let mut i: usize = 0;
    while i < args.len()
        invariant
            i <= args.len(),
            args.deep_view() == config@.args,
            all == seq![config@.program] + config@.args,
            written == all.take(1 + i),
            out@ == old(out)@ + join_text(written, " "@),
        decreases args.len() - i,
    {
        let arg = args[i].as_str();
        assert(args.deep_view()[i as int] == args[i as int]@);
        out.append(" ");
        out.append(arg);
        proof {
            lemma_join_text_push(written, arg@, " "@);
            assert(written.push(arg@) =~~= all.take(2 + i));
            assert(out@ =~= old(out)@ + join_text(written.push(arg@), " "@));
            written = written.push(arg@);
        }
        i += 1;
    }
    assert(written =~~= all);
}

impl Pipeline {
    /// The pipeline without stages.
    pub fn new() -> (pipeline: Self)
        ensures
            pipeline@ == Seq::<PipelineStage>::empty(),
    {
        Pipeline { stages: Vec::new() }
    }

    /// The same pipeline with `stage` at its end.
    pub fn add_stage(self, stage: PipelineStage) -> (pipeline: Self)
        ensures
            pipeline@ == self@.push(stage),
    {
        let mut stages = self.stages;
        stages.push(stage);
        Pipeline { stages }
    }

    /// The same pipeline with a stage at its end that runs `config` on the
    /// output of the stage before it.
    pub fn pipe(self, config: CommandConfig) -> (pipeline: Self)
        ensures
            pipeline@ == self@.push(PipelineStage { config, ignore_input: false }),
    {
        self.add_stage(PipelineStage::new(config))
    }

    /// The stages, in order.
    pub fn stages(&self) -> (stages: &[PipelineStage])
        ensures
            stages@ == self@,
    {
        self.stages.as_slice()
    }

    /// The number of stages.
    pub fn len(&self) -> (n: usize)
        ensures
            n == self@.len(),
    {
        self.stages.len()
    }

    /// Whether there is no stage.
    pub fn is_empty(&self) -> (empty: bool)
        ensures
            empty == (self@.len() == 0),
    {
        self.stages.len() == 0
    }

    /// The pipeline as one would type it in a shell, for display.
    pub fn to_command_string(&self) -> (text: String)
        ensures
            text@ == pipeline_text(self@),
    {
        let mut text = String::new();
        let ghost all = stage_texts(self@);
        let mut i: usize = 0;
        assert(text@ =~= join_text(all.take(0), " | "@));
        while i < self.stages.len()
            invariant
                i <= self.stages.len(),
                all == stage_texts(self@),
                text@ == join_text(all.take(i as int), " | "@),
            decreases self.stages.len() - i,
        {
            let ghost before = text@;
            if i > 0 {
                text.append(" | ");
            }
            append_command_text(&mut text, &self.stages[i].config);
            proof {
                let part = command_text(self.stages[i as int].config@);
                assert(all.take(i as int).push(part) =~~= all.take(i + 1));
                if i > 0 {
                    lemma_join_text_push(all.take(i as int), part, " | "@);
                    assert(text@ =~= before + " | "@ + part);
                } else {
                    assert(all.take(1) =~~= seq![part]);
                    assert(before =~= Seq::<char>::empty());
                    assert(text@ =~= part);
                }
            }
            i += 1;
        }
        assert(all.take(i as int) =~~= all);
        text
    }
}

impl Default for Pipeline {
    fn default() -> (pipeline: Self)
        ensures
            pipeline@ == Seq::<PipelineStage>::empty(),
    {
        Pipeline::new()
    }
}

impl Clone for Pipeline {
    fn clone(&self) -> (copy: Self)
        ensures
            copy@.len() == self@.len(),
            forall|k: int|
                0 <= k < self@.len() ==> (#[trigger] copy@[k]).config@ == self@[k].config@
                    && copy@[k].ignore_input == self@[k].ignore_input,
    {
        let mut stages: Vec<PipelineStage> = Vec::new();
        let mut i: usize = 0;
        while i < self.stages.len()
            invariant
                i <= self.stages.len(),
                stages.len() == i,
                forall|k: int|
                    0 <= k < i ==> (#[trigger] stages@[k]).config@ == self.stages@[k].config@
                        && stages@[k].ignore_input == self.stages@[k].ignore_input,
            decreases self.stages.len() - i,
        {
            stages.push(self.stages[i].clone());
            i += 1;
        }
        Pipeline { stages }
    }
}

/// Where a run of a pipeline stands: the stage that is being run.
#[derive(Debug)]
pub struct PipelineRun {
    stage: usize,
}

impl PipelineRun {
    /// The position of the stage that is being run.
    pub closed spec fn position(self) -> nat {
        self.stage as nat
    }

    /// The position of the stage that is being run.
    pub fn stage(&self) -> (stage: usize)
        ensures
            stage == self.position(),
    {
        self.stage
    }
}

/// What to do next in a run of a pipeline.
#[derive(Debug)]
pub enum PipelineStep {
    /// Run the stage at `run.stage()`, writing `stdin` to its standard
    /// input and closing it where `stdin` is given, then report the
    /// outcome to [`PipelineExecutor::advance`] together with `run`.
    Run { run: PipelineRun, stdin: Option<Vec<u8>> },
    /// The run is over, with this result.
    Done(Result<ProcessOutput, ExecuteError>),
}

impl PipelineStep {
    /// Whether the run is over with an error.
    pub fn is_err(&self) -> (failed: bool)
        ensures
            failed == (self matches PipelineStep::Done(Err(_))),
    {
        match self {
            PipelineStep::Done(Err(_)) => true,
            _ => false,
        }
    }
}

/// The input that the stage at `position` is given when the stage before
/// it has written `produced`: all of it, unless the stage ignores input.
pub open spec fn stage_input(stages: Seq<PipelineStage>, position: int, produced: Seq<u8>)
    -> Option<Seq<u8>> {
    if stages[position].ignore_input {
        None
    } else {
        Some(produced)
    }
}

/// The bytes that a stage is handed, if any.
pub open spec fn given_input(stdin: Option<Vec<u8>>) -> Option<Seq<u8>> {
    match stdin {
        Some(bytes) => Some(bytes@),
        None => None,
    }
}

/// Whether `outcome` ends a run that has reached the stage at `position`:
/// an error does, an output that is not a success does, and so does any
/// outcome of the last stage.
pub open spec fn ends_run(
    stages: Seq<PipelineStage>,
    position: nat,
    outcome: Result<ProcessOutput, ExecuteError>,
) -> bool {
    match outcome {
        Err(_) => true,
        Ok(output) => !output@.success() || position + 1 == stages.len(),
    }
}

/// The rule of the run: whether `step` is what follows when the stage at
/// `position` ended with `outcome`.
///
/// An outcome that ends the run is the result of the run, an output that
/// is not a success just as any other output.  Any other outcome moves on
/// to the next stage, which is given what this one wrote to its standard
/// output unless it ignores input.  A position past the last stage is an
/// I/O error that reads "pipeline execution failed".
pub open spec fn follows(
    stages: Seq<PipelineStage>,
    position: nat,
    outcome: Result<ProcessOutput, ExecuteError>,
    step: PipelineStep,
) -> bool {
    if position >= stages.len() {
        step matches PipelineStep::Done(Err(error)) && error.is_io(
            IoErrorKind::Other,
            "pipeline execution failed"@,
        )
    } else if ends_run(stages, position, outcome) {
        step == PipelineStep::Done(outcome)
    } else {
        step matches PipelineStep::Run { run: next, stdin } && next.position() == position + 1
            && given_input(stdin) == stage_input(
            stages,
            next.position() as int,
            outcome->Ok_0@.stdout,
        )
    }
}

/// Whether `step` asks for the stage at `position` to be run.
pub open spec fn runs_stage(step: PipelineStep, position: nat) -> bool {
    step matches PipelineStep::Run { run, .. } && run.position() == position
}

/// Runs pipelines stage by stage.
pub struct PipelineExecutor;

impl PipelineExecutor {
    /// Begins a run.  A pipeline without stages cannot be run: that is an
    /// I/O error that reads "pipeline is empty".  Any other pipeline starts
    /// with its first stage, which gets no input.
    pub fn execute(pipeline: &Pipeline) -> (step: PipelineStep)
        ensures
            pipeline@.len() == 0 ==> (step matches PipelineStep::Done(Err(error)) && error.is_io(
                IoErrorKind::Other,
                "pipeline is empty"@,
            )),
            pipeline@.len() > 0 ==> (step matches PipelineStep::Run { run, stdin }
                && run.position() == 0 && stdin is None),
    {
        if pipeline.is_empty() {
            PipelineStep::Done(Err(ExecuteError::io(IoErrorKind::Other, "pipeline is empty")))
        } else {
            PipelineStep::Run { run: PipelineRun { stage: 0 }, stdin: None }
        }
    }

    /// Continues a run after the stage at `run.stage()` ended with
    /// `outcome`.
    ///
    /// An error ends the run with that error.  An output that is not a
    /// success ends the run with that output, as a result and not as an
    /// error, and no later stage is run.  A success of the last stage ends
    /// the run with its output.  A success of any other stage moves on to
    /// the next stage, which is given what this one wrote to its standard
    /// output unless it ignores input.  A `run` that points past the last
    /// stage belongs to another pipeline: that is an I/O error that reads
    /// "pipeline execution failed".
    pub fn advance(
        pipeline: &Pipeline,
        run: PipelineRun,
        outcome: Result<ProcessOutput, ExecuteError>,
    ) -> (step: PipelineStep)
        ensures
            follows(pipeline@, run.position(), outcome, step),
    {
        if run.stage >= pipeline.len() {
            return PipelineStep::Done(
                Err(ExecuteError::io(IoErrorKind::Other, "pipeline execution failed")),
            );
        }
        match outcome {
            Err(error) => PipelineStep::Done(Err(error)),
            Ok(output) => {
                if !output.success() || run.stage + 1 == pipeline.len() {
                    PipelineStep::Done(Ok(output))
                } else {
                    let next = run.stage + 1;
                    let stdin = if pipeline.stages()[next].ignore_input {
                        None
                    } else {
                        Some(output.stdout.clone())
                    };
                    PipelineStep::Run { run: PipelineRun { stage: next }, stdin }
                }
            },
        }
    }
}

/// The stages of a pipeline run strictly one after the other, each at
/// most once and in their order, and the first outcome that is an error or
/// not a success is the result of the run: no stage is run after it.
///
/// `steps[i]` is the step that asked for the run that ended with
/// `outcomes[i]`, and `steps[i + 1]` the step that followed it.
pub proof fn lemma_stages_run_in_order(
    stages: Seq<PipelineStage>,
    outcomes: Seq<Result<ProcessOutput, ExecuteError>>,
    steps: Seq<PipelineStep>,
    i: int,
)
    requires
        steps.len() == outcomes.len() + 1,
        runs_stage(steps[0], 0),
        forall|k: int|
            0 <= k < outcomes.len() ==> (#[trigger] steps[k]) is Run && follows(
                stages,
                steps[k]->run.position(),
                outcomes[k],
                steps[k + 1],
            ),
        0 <= i < outcomes.len(),
    ensures
        runs_stage(steps[i], i as nat),
        i < stages.len() || steps[i + 1] is Done,
        (outcomes[i] is Err || !outcomes[i]->Ok_0@.success()) && i < stages.len() ==> steps[i + 1]
            == PipelineStep::Done(outcomes[i]) && i + 1 == outcomes.len(),
        i + 1 == stages.len() ==> steps[i + 1] == PipelineStep::Done(outcomes[i]),
    decreases i,
{
    if i > 0 {
        lemma_stages_run_in_order(stages, outcomes, steps, i - 1);
        assert(steps[i - 1] is Run);
        assert(follows(stages, steps[i - 1]->run.position(), outcomes[i - 1], steps[(i - 1) + 1]));
    }
    assert(steps[i] is Run);
    assert(follows(stages, steps[i]->run.position(), outcomes[i], steps[i + 1]));
    if i + 1 < outcomes.len() {
        assert(steps[i + 1] is Run);
    }
}

} // verus!
