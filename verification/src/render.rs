//! The mathematical model of a pipeline document and its canonical rendering.
//!
//! Every builder value is abstracted to one of the view structures below, and
//! the rendering spec functions say, character for character, what text a
//! finalized document consists of. Rendering is strictly insertion-ordered:
//! stages and jobs appear exactly in the order in which they were added.

use vstd::prelude::*;

verus! {

/// The abstract content of an execution pool: a required name and an
/// optional container image.
pub struct PoolView {
    pub pool_name: Seq<char>,
    pub image_name: Option<Seq<char>>,
}

/// The abstract content of a stage: a name and the names of its jobs, in
/// insertion order.
pub struct StageView {
    pub name: Seq<char>,
    pub jobs: Seq<Seq<char>>,
}

/// The abstract content of a whole pipeline document.
pub struct PipelineView {
    pub trigger: Option<Seq<char>>,
    pub pool: Option<PoolView>,
    pub stages: Seq<StageView>,
}

/// The trigger block: `trigger: <name>` followed by a blank line, or nothing
/// at all when no trigger was set.
pub open spec fn render_trigger(trigger: Option<Seq<char>>) -> Seq<char> {
    match trigger {
        Some(name) => "trigger: "@ + name + "\n"@ + "\n"@,
        None => Seq::empty(),
    }
}

/// The pool block: a `pool:` header, the pool name, the image line when an
/// image was set, and a closing blank line; nothing at all when no pool was
/// set.
pub open spec fn render_pool(pool: Option<PoolView>) -> Seq<char> {
    match pool {
        Some(p) => "pool:"@ + "\n"@ + "  name: "@ + p.pool_name + "\n"@ + match p.image_name {
            Some(image) => "  image: "@ + image + "\n"@ + "\n"@,
            None => "\n"@,
        },
        None => Seq::empty(),
    }
}

/// One job entry of a stage.
pub open spec fn render_job_line(name: Seq<char>) -> Seq<char> {
    "  - job: "@ + name + "\n"@
}

/// The job entries of a stage, in insertion order.
pub open spec fn render_jobs(jobs: Seq<Seq<char>>) -> Seq<char>
    decreases jobs.len(),
{
    if jobs.len() == 0 {
        Seq::empty()
    } else {
        render_job_line(jobs[0]) + render_jobs(jobs.drop_first())
    }
}

/// One stage block: the stage header, the `jobs:` header, then its job
/// entries.
pub open spec fn render_stage_block(stage: StageView) -> Seq<char> {
    "- stage: "@ + stage.name + "\n"@ + "  jobs:"@ + "\n"@ + render_jobs(stage.jobs)
}

/// The stage blocks of the document, in insertion order, with no separator
/// between consecutive stages.
pub open spec fn render_stages(stages: Seq<StageView>) -> Seq<char>
    decreases stages.len(),
{
    if stages.len() == 0 {
        Seq::empty()
    } else {
        render_stage_block(stages[0]) + render_stages(stages.drop_first())
    }
}

/// The whole document: trigger block, pool block, then the `stages:` header
/// and every stage block.
pub open spec fn render_pipeline(pipeline: PipelineView) -> Seq<char> {
    render_trigger(pipeline.trigger) + render_pool(pipeline.pool) + "stages:"@ + "\n"@
        + render_stages(pipeline.stages)
}

} // verus!
