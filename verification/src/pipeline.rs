//! The pipeline orchestrator's plan: how a line splits into stages, and
//! which pipe or console each stage's standard input and output connect
//! to.  The caller allocates the pipes, forks the stages and waits for
//! them, following the plan.

use vstd::prelude::*;

use crate::strutil::spec_split;
use crate::strutil::split_char;
use crate::strutil::views;
use crate::strutil::contains_char;
use crate::tokenize::spec_tokenize;
use crate::tokenize::tokenize;

verus! {

/// The character-sequence views of a sequence of token vectors.
pub open spec fn stage_views(ss: Seq<Vec<String>>) -> Seq<Seq<Seq<char>>> {
    ss.map_values(|v: Vec<String>| views(v@))
}

/// Pushing one more stage appends its views to the stages' views.
proof fn lemma_stage_views_push(ss: Seq<Vec<String>>, v: Vec<String>)
    ensures
        stage_views(ss.push(v)) == stage_views(ss).push(views(v@)),
{
    assert(stage_views(ss.push(v)) =~= stage_views(ss).push(views(v@)));
}

/// One parsed line of input: nothing, a single command's tokens, or the
/// tokens of each stage of a pipeline.
pub enum ParsedLine {
    /// The line held no tokens.
    Empty,
    /// A single command: its tokens in order.
    Single(Vec<String>),
    /// A pipeline: each stage's tokens, in order of the stages.
    Pipeline(Vec<Vec<String>>),
}

/// The stages a pipeline line splits into: the tokens of each piece of
/// the line between pipe operators.
pub open spec fn spec_pipeline_stages(s: Seq<char>) -> Seq<Seq<Seq<char>>> {
    spec_split(s, '|').map_values(|p: Seq<char>| spec_tokenize(p))
}

/// Splits a line on the pipe operator and tokenizes each stage; a line
/// without a pipe is a single command, and one with no tokens at all is
/// empty.
pub fn parse_line(line: &str) -> (r: ParsedLine)
    ensures
        !line@.contains('|') && spec_tokenize(line@).len() == 0 ==> r is Empty,
        !line@.contains('|') && spec_tokenize(line@).len() > 0 ==> ({
            &&& r is Single
            &&& views(r->Single_0@) == spec_tokenize(line@)
        }),
        line@.contains('|') ==> ({
            &&& r is Pipeline
            &&& stage_views(r->Pipeline_0@) == spec_pipeline_stages(line@)
        }),
{
    if contains_char(line, '|') {
        let parts = split_char(line, '|');
        let mut stages: Vec<Vec<String>> = Vec::new();
        let mut i: usize = 0;
        proof {
            assert(stage_views(stages@) =~= Seq::<Seq<Seq<char>>>::empty());
        }
        while i < parts.len()
            invariant
                i <= parts@.len(),
                views(parts@) == spec_split(line@, '|'),
                stage_views(stages@) =~= spec_pipeline_stages(line@).subrange(0, i as int),
            decreases parts@.len() - i,
        {
            let toks = tokenize(parts[i].as_str());
            proof {
                assert(views(parts@)[i as int] == parts@[i as int]@);
                assert(spec_pipeline_stages(line@)[i as int] == spec_tokenize(parts@[i as int]@));
                lemma_stage_views_push(stages@, toks);
            }
            stages.push(toks);
            i = i + 1;
            proof {
                assert(stage_views(stages@) =~= spec_pipeline_stages(line@).subrange(
                    0,
                    i as int,
                ));
            }
        }
        proof {
            assert(spec_pipeline_stages(line@).subrange(
                0,
                spec_pipeline_stages(line@).len() as int,
            ) =~= spec_pipeline_stages(line@));
        }
        ParsedLine::Pipeline(stages)
    } else {
        let toks = tokenize(line);
        if toks.len() == 0 {
            ParsedLine::Empty
        } else {
            ParsedLine::Single(toks)
        }
    }
}

/// Whether every stage of a pipeline has at least a command name.
pub open spec fn spec_stages_wellformed(stages: Seq<Seq<Seq<char>>>) -> bool {
    forall|k: int| 0 <= k < stages.len() ==> (#[trigger] stages[k]).len() > 0
}

/// Checks that every stage of the pipeline has at least a command name.
pub fn stages_wellformed(stages: &Vec<Vec<String>>) -> (r: bool)
    ensures
        r == spec_stages_wellformed(stage_views(stages@)),
{
    let mut i: usize = 0;
    while i < stages.len()
        invariant
            i <= stages@.len(),
            forall|k: int| 0 <= k < i ==> (#[trigger] stage_views(stages@)[k]).len() > 0,
        decreases stages@.len() - i,
    {
        if stages[i].len() == 0 {
            proof {
                assert(stage_views(stages@)[i as int].len() == 0);
            }
            return false;
        }
        i = i + 1;
    }
    true
}

/// Where one stage's standard input comes from.
#[derive(Clone, Copy, Debug, PartialEq, Eq, Structural)]
pub enum StageInput {
    /// The console (the shell's own standard input).
    Console,
    /// The read end of the numbered pipe.
    FromPipe(usize),
}

/// Where one stage's standard output goes.
#[derive(Clone, Copy, Debug, PartialEq, Eq, Structural)]
pub enum StageOutput {
    /// The console, or the stage's own redirection target.
    Console,
    /// The write end of the numbered pipe.
    ToPipe(usize),
}

/// One stage's file-descriptor wiring.
#[derive(Clone, Copy, Debug, PartialEq, Eq, Structural)]
pub struct StagePlan {
    /// Where the stage reads its standard input.
    pub input: StageInput,
    /// Where the stage writes its standard output.
    pub output: StageOutput,
}

/// The wiring an `n`-stage pipeline must have, with pipes numbered `0`
/// through `n - 2`: stage `i` reads from pipe `i - 1` (the console for
/// the first stage) and writes to pipe `i` (the console for the last).
pub open spec fn spec_wired(plan: Seq<StagePlan>) -> bool {
    &&& forall|i: int|
        0 <= i < plan.len() ==> (#[trigger] plan[i]).input == (if i == 0 {
            StageInput::Console
        } else {
            StageInput::FromPipe((i - 1) as usize)
        })
    &&& forall|i: int|
        0 <= i < plan.len() ==> (#[trigger] plan[i]).output == (if i == plan.len() - 1 {
            StageOutput::Console
        } else {
            StageOutput::ToPipe(i as usize)
        })
}

/// Lays out the file-descriptor wiring for an `n`-stage pipeline, which
/// needs `n - 1` pipes.
pub fn plan_pipeline(n: usize) -> (plan: Vec<StagePlan>)
    requires
        1 <= n,
    ensures
        plan@.len() == n,
        spec_wired(plan@),
{
    let mut plan: Vec<StagePlan> = Vec::new();
    let mut i: usize = 0;
    while i < n
        invariant
            i <= n,
            plan@.len() == i,
            forall|k: int|
                0 <= k < i ==> (#[trigger] plan@[k]).input == (if k == 0 {
                    StageInput::Console
                } else {
                    StageInput::FromPipe((k - 1) as usize)
                }),
            forall|k: int|
                0 <= k < i ==> (#[trigger] plan@[k]).output == (if k == n - 1 {
                    StageOutput::Console
                } else {
                    StageOutput::ToPipe(k as usize)
                }),
        decreases n - i,
    {
        let input = if i == 0 {
            StageInput::Console
        } else {
            StageInput::FromPipe(i - 1)
        };
        let output = if i == n - 1 {
            StageOutput::Console
        } else {
            StageOutput::ToPipe(i)
        };
        plan.push(StagePlan { input, output });
        i = i + 1;
    }
    plan
}

/// Law: in a wired pipeline plan, the data path is a chain.  The first
/// stage reads the console and the last writes the console; stage `i + 1`
/// reads exactly the pipe stage `i` writes; and each pipe has exactly one
/// writer (the stage before it) and exactly one reader (the stage after
/// it), so closing its two ends once each, in those owners, closes
/// everything.
pub proof fn lemma_pipeline_chain(plan: Seq<StagePlan>)
    requires
        spec_wired(plan),
        1 <= plan.len() <= usize::MAX,
    ensures
        plan[0].input == StageInput::Console,
        plan[plan.len() - 1].output == StageOutput::Console,
        forall|i: int|
            0 <= i < plan.len() - 1 ==> (#[trigger] plan[i]).output == StageOutput::ToPipe(
                i as usize,
            ) && plan[i + 1].input == StageInput::FromPipe(i as usize),
        forall|i1: int, i2: int|
            0 <= i1 < plan.len() && 0 <= i2 < plan.len() && (#[trigger] plan[i1]).output == (
            #[trigger] plan[i2]).output && plan[i1].output is ToPipe ==> i1 == i2,
        forall|i1: int, i2: int|
            0 <= i1 < plan.len() && 0 <= i2 < plan.len() && (#[trigger] plan[i1]).input == (
            #[trigger] plan[i2]).input && plan[i1].input is FromPipe ==> i1 == i2,
{
    assert forall|i1: int, i2: int|
        0 <= i1 < plan.len() && 0 <= i2 < plan.len() && (#[trigger] plan[i1]).output == (
        #[trigger] plan[i2]).output && plan[i1].output is ToPipe implies i1 == i2 by {
        assert(i1 != plan.len() - 1);
        assert(i2 != plan.len() - 1);
        assert(plan[i1].output == StageOutput::ToPipe(i1 as usize));
        assert(plan[i2].output == StageOutput::ToPipe(i2 as usize));
    }
    assert forall|i1: int, i2: int|
        0 <= i1 < plan.len() && 0 <= i2 < plan.len() && (#[trigger] plan[i1]).input == (
        #[trigger] plan[i2]).input && plan[i1].input is FromPipe implies i1 == i2 by {
        assert(i1 != 0);
        assert(i2 != 0);
        assert(plan[i1].input == StageInput::FromPipe((i1 - 1) as usize));
        assert(plan[i2].input == StageInput::FromPipe((i2 - 1) as usize));
    }
}

} // verus!
