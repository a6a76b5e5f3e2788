//! The library's stated properties of the rendering, as proof functions.

use vstd::prelude::*;

use crate::lines::has_line_with_prefix;
use crate::lines::is_line_start;
use crate::lines::lemma_blank_line_avoids_prefix;
use crate::lines::lemma_empty_avoids_prefix;
use crate::lines::lemma_line_avoids_mismatched_prefix;
use crate::lines::lemma_line_prefix_concat;
use crate::lines::mismatches;
use crate::lines::newline_free;
use crate::render::PipelineView;
use crate::render::StageView;
use crate::render::render_job_line;
use crate::render::render_jobs;
use crate::render::render_pipeline;
use crate::render::render_pool;
use crate::render::render_stage_block;
use crate::render::render_stages;
use crate::render::render_trigger;

verus! {

/// Every job name in the list is free of newlines.
pub open spec fn jobs_newline_free(jobs: Seq<Seq<char>>) -> bool {
    forall|i: int| 0 <= i < jobs.len() ==> newline_free(#[trigger] jobs[i])
}

/// Every stage name and every job name is free of newlines.
pub open spec fn stages_newline_free(stages: Seq<StageView>) -> bool {
    forall|i: int|
        0 <= i < stages.len() ==> newline_free((#[trigger] stages[i]).name) && jobs_newline_free(
            stages[i].jobs,
        )
}

/// Every name occurring in the document is free of newlines, so each one
/// stays inside the single line that carries it.
pub open spec fn pipeline_names_newline_free(pipeline: PipelineView) -> bool {
    &&& (pipeline.trigger matches Some(t) ==> newline_free(t))
    &&& (pipeline.pool matches Some(p) ==> newline_free(p.pool_name) && (
    p.image_name matches Some(image) ==> newline_free(image)))
    &&& stages_newline_free(pipeline.stages)
}

/// Determinism: rendering is a pure function of the composed document, so
/// two builders that accumulated equal documents compile to byte-identical
/// text.
pub proof fn lemma_render_deterministic(a: PipelineView, b: PipelineView)
    requires
        a == b,
    ensures
        render_pipeline(a) == render_pipeline(b),
{
}

/// Order preservation for jobs: the text of a concatenated job list is the
/// text of the first part followed by the text of the second, so jobs are
/// rendered exactly in list order.
pub proof fn lemma_render_jobs_concat(a: Seq<Seq<char>>, b: Seq<Seq<char>>)
    ensures
        render_jobs(a + b) == render_jobs(a) + render_jobs(b),
    decreases a.len(),
{
    if a.len() == 0 {
        assert(a + b =~= b);
        assert(render_jobs(a) + render_jobs(b) =~= render_jobs(b));
    } else {
        assert((a + b).drop_first() =~= a.drop_first() + b);
        lemma_render_jobs_concat(a.drop_first(), b);
        assert(render_jobs(a + b) =~= render_jobs(a) + render_jobs(b));
    }
}

/// Order preservation for jobs, appended one at a time: a job added last is
/// rendered last, after everything already there.
pub proof fn lemma_render_jobs_push(jobs: Seq<Seq<char>>, name: Seq<char>)
    ensures
        render_jobs(jobs.push(name)) == render_jobs(jobs) + render_job_line(name),
{
    assert(jobs.push(name) =~= jobs + seq![name]);
    lemma_render_jobs_concat(jobs, seq![name]);
    assert(seq![name].drop_first() =~= Seq::<Seq<char>>::empty());
    assert(render_jobs(Seq::<Seq<char>>::empty()) == Seq::<char>::empty());
    assert(render_jobs(seq![name]) == render_job_line(name) + Seq::<char>::empty());
    assert(render_job_line(name) + Seq::<char>::empty() =~= render_job_line(name));
}

/// Order preservation for stages: the text of a concatenated stage list is
/// the text of the first part followed by the text of the second, so stages
/// are rendered exactly in list order.
pub proof fn lemma_render_stages_concat(a: Seq<StageView>, b: Seq<StageView>)
    ensures
        render_stages(a + b) == render_stages(a) + render_stages(b),
    decreases a.len(),
{
    if a.len() == 0 {
        assert(a + b =~= b);
        assert(render_stages(a) + render_stages(b) =~= render_stages(b));
    } else {
        assert((a + b).drop_first() =~= a.drop_first() + b);
        lemma_render_stages_concat(a.drop_first(), b);
        assert(render_stages(a + b) =~= render_stages(a) + render_stages(b));
    }
}

/// Order preservation for stages, appended one at a time: a stage added last
/// is rendered last, after everything already there.
pub proof fn lemma_render_stages_push(stages: Seq<StageView>, stage: StageView)
    ensures
        render_stages(stages.push(stage)) == render_stages(stages) + render_stage_block(stage),
{
    assert(stages.push(stage) =~= stages + seq![stage]);
    lemma_render_stages_concat(stages, seq![stage]);
    assert(seq![stage].drop_first() =~= Seq::<StageView>::empty());
    assert(render_stages(Seq::<StageView>::empty()) == Seq::<char>::empty());
    assert(render_stages(seq![stage]) == render_stage_block(stage) + Seq::<char>::empty());
    assert(render_stage_block(stage) + Seq::<char>::empty() =~= render_stage_block(stage));
}

proof fn lemma_render_jobs_ends_newline(jobs: Seq<Seq<char>>)
    requires
        jobs.len() > 0,
    ensures
        render_jobs(jobs).len() > 0,
        render_jobs(jobs).last() == '\n',
    decreases jobs.len(),
{
    reveal_strlit("\n");
    let line = render_job_line(jobs[0]);
    assert(line.last() == '\n');
    if jobs.len() == 1 {
        assert(jobs.drop_first().len() == 0);
        assert(render_jobs(jobs.drop_first()) == Seq::<char>::empty());
        assert(render_jobs(jobs) =~= line);
    } else {
        lemma_render_jobs_ends_newline(jobs.drop_first());
    }
}

proof fn lemma_render_stage_block_ends_newline(stage: StageView)
    ensures
        render_stage_block(stage).len() > 0,
        render_stage_block(stage).last() == '\n',
{
    reveal_strlit("\n");
    if stage.jobs.len() == 0 {
        assert(render_jobs(stage.jobs) == Seq::<char>::empty());
        assert(render_stage_block(stage) =~= "- stage: "@ + stage.name + "\n"@ + "  jobs:"@
            + "\n"@);
    } else {
        lemma_render_jobs_ends_newline(stage.jobs);
    }
}

proof fn lemma_render_stages_ends_newline(stages: Seq<StageView>)
    requires
        stages.len() > 0,
    ensures
        render_stages(stages).len() > 0,
        render_stages(stages).last() == '\n',
    decreases stages.len(),
{
    lemma_render_stage_block_ends_newline(stages[0]);
    if stages.len() == 1 {
        assert(stages.drop_first().len() == 0);
        assert(render_stages(stages.drop_first()) == Seq::<char>::empty());
        assert(render_stages(stages) =~= render_stage_block(stages[0]));
    } else {
        lemma_render_stages_ends_newline(stages.drop_first());
    }
}

proof fn lemma_jobs_avoid_prefix(jobs: Seq<Seq<char>>, p: Seq<char>)
    requires
        p.len() > 0,
        newline_free(p),
        jobs_newline_free(jobs),
        mismatches(p, "  - job: "@),
    ensures
        !has_line_with_prefix(render_jobs(jobs), p),
    decreases jobs.len(),
{
    if jobs.len() == 0 {
        assert(render_jobs(jobs) == Seq::<char>::empty());
        lemma_empty_avoids_prefix(p);
    } else {
        assert(newline_free("  - job: "@)) by {
            reveal_strlit("  - job: ");
            assert forall|j: int| 0 <= j < ("  - job: "@).len() implies ("  - job: "@)[j] != '\n'
                by {}
        }
        lemma_line_avoids_mismatched_prefix("  - job: "@, jobs[0], p);
        lemma_jobs_avoid_prefix(jobs.drop_first(), p);
        let line = "  - job: "@ + jobs[0] + "\n"@;
        assert(line.last() == '\n') by {
            reveal_strlit("\n");
        }
        lemma_line_prefix_concat(line, render_jobs(jobs.drop_first()), p);
        assert(render_jobs(jobs) == line + render_jobs(jobs.drop_first()));
    }
}

proof fn lemma_stage_block_avoids_prefix(stage: StageView, p: Seq<char>)
    requires
        p.len() > 0,
        newline_free(p),
        newline_free(stage.name),
        jobs_newline_free(stage.jobs),
        mismatches(p, "- stage: "@),
        mismatches(p, "  jobs:"@),
        mismatches(p, "  - job: "@),
    ensures
        !has_line_with_prefix(render_stage_block(stage), p),
{
    reveal_strlit("\n");
    assert(newline_free("- stage: "@)) by {
        reveal_strlit("- stage: ");
        assert forall|j: int| 0 <= j < ("- stage: "@).len() implies ("- stage: "@)[j] != '\n' by {}
    }
    assert(newline_free("  jobs:"@)) by {
        reveal_strlit("  jobs:");
        assert forall|j: int| 0 <= j < ("  jobs:"@).len() implies ("  jobs:"@)[j] != '\n' by {}
    }
    let line1 = "- stage: "@ + stage.name + "\n"@;
    let line2 = "  jobs:"@ + "\n"@;
    lemma_line_avoids_mismatched_prefix("- stage: "@, stage.name, p);
    lemma_line_avoids_mismatched_prefix("  jobs:"@, Seq::<char>::empty(), p);
    assert("  jobs:"@ + Seq::<char>::empty() + "\n"@ =~= line2);
    lemma_jobs_avoid_prefix(stage.jobs, p);
    assert(line2.last() == '\n');
    lemma_line_prefix_concat(line2, render_jobs(stage.jobs), p);
    assert(line1.last() == '\n');
    lemma_line_prefix_concat(line1, line2 + render_jobs(stage.jobs), p);
    assert(render_stage_block(stage) =~= line1 + (line2 + render_jobs(stage.jobs)));
}

proof fn lemma_stages_avoid_prefix(stages: Seq<StageView>, p: Seq<char>)
    requires
        p.len() > 0,
        newline_free(p),
        stages_newline_free(stages),
        mismatches(p, "- stage: "@),
        mismatches(p, "  jobs:"@),
        mismatches(p, "  - job: "@),
    ensures
        !has_line_with_prefix(render_stages(stages), p),
    decreases stages.len(),
{
    if stages.len() == 0 {
        assert(render_stages(stages) == Seq::<char>::empty());
        lemma_empty_avoids_prefix(p);
    } else {
        lemma_stage_block_avoids_prefix(stages[0], p);
        assert(stages_newline_free(stages.drop_first())) by {
            assert forall|i: int| 0 <= i < stages.drop_first().len() implies newline_free(
                (#[trigger] stages.drop_first()[i]).name,
            ) && jobs_newline_free(stages.drop_first()[i].jobs) by {
                assert(stages.drop_first()[i] == stages[i + 1]);
            }
        }
        lemma_stages_avoid_prefix(stages.drop_first(), p);
        lemma_render_stage_block_ends_newline(stages[0]);
        lemma_line_prefix_concat(render_stage_block(stages[0]), render_stages(stages.drop_first()), p);
    }
}

proof fn lemma_pipeline_avoids_prefix(pipeline: PipelineView, p: Seq<char>)
    requires
        p.len() > 0,
        newline_free(p),
        pipeline_names_newline_free(pipeline),
        pipeline.trigger is Some ==> mismatches(p, "trigger: "@),
        pipeline.pool is Some ==> mismatches(p, "pool:"@) && mismatches(p, "  name: "@),
        pipeline.pool matches Some(pl) && pl.image_name is Some ==> mismatches(p, "  image: "@),
        mismatches(p, "stages:"@),
        mismatches(p, "- stage: "@),
        mismatches(p, "  jobs:"@),
        mismatches(p, "  - job: "@),
    ensures
        !has_line_with_prefix(render_pipeline(pipeline), p),
{
    reveal_strlit("\n");
    let tpart = render_trigger(pipeline.trigger);
    let ppart = render_pool(pipeline.pool);
    let hpart = "stages:"@ + "\n"@;
    let spart = render_stages(pipeline.stages);
    assert(!has_line_with_prefix(tpart, p) && (tpart.len() == 0 || tpart.last() == '\n')) by {
        match pipeline.trigger {
            Some(t) => {
                assert(newline_free("trigger: "@)) by {
                    reveal_strlit("trigger: ");
                    assert forall|j: int|
                        0 <= j < ("trigger: "@).len() implies ("trigger: "@)[j] != '\n' by {}
                }
                let line = "trigger: "@ + t + "\n"@;
                lemma_line_avoids_mismatched_prefix("trigger: "@, t, p);
                lemma_blank_line_avoids_prefix(p);
                assert(line.last() == '\n');
                lemma_line_prefix_concat(line, "\n"@, p);
                assert(tpart =~= line + "\n"@);
            },
            None => {
                lemma_empty_avoids_prefix(p);
                assert(tpart =~= Seq::<char>::empty());
            },
        }
    }
    assert(!has_line_with_prefix(ppart, p) && (ppart.len() == 0 || ppart.last() == '\n')) by {
        match pipeline.pool {
            Some(pl) => {
                assert(newline_free("pool:"@)) by {
                    reveal_strlit("pool:");
                    assert forall|j: int| 0 <= j < ("pool:"@).len() implies ("pool:"@)[j] != '\n'
                        by {}
                }
                assert(newline_free("  name: "@)) by {
                    reveal_strlit("  name: ");
                    assert forall|j: int|
                        0 <= j < ("  name: "@).len() implies ("  name: "@)[j] != '\n' by {}
                }
                let line_a = "pool:"@ + "\n"@;
                let line_b = "  name: "@ + pl.pool_name + "\n"@;
                lemma_line_avoids_mismatched_prefix("pool:"@, Seq::<char>::empty(), p);
                assert("pool:"@ + Seq::<char>::empty() + "\n"@ =~= line_a);
                lemma_line_avoids_mismatched_prefix("  name: "@, pl.pool_name, p);
                lemma_blank_line_avoids_prefix(p);
                let tail: Seq<char> = match pl.image_name {
                    Some(image) => "  image: "@ + image + "\n"@ + "\n"@,
                    None => "\n"@,
                };
                assert(!has_line_with_prefix(tail, p) && tail.last() == '\n') by {
                    match pl.image_name {
                        Some(image) => {
                            assert(newline_free("  image: "@)) by {
                                reveal_strlit("  image: ");
                                assert forall|j: int|
                                    0 <= j < ("  image: "@).len() implies ("  image: "@)[j] != '\n'
                                    by {}
                            }
                            let line_c = "  image: "@ + image + "\n"@;
                            lemma_line_avoids_mismatched_prefix("  image: "@, image, p);
                            assert(line_c.last() == '\n');
                            lemma_line_prefix_concat(line_c, "\n"@, p);
                            assert(tail =~= line_c + "\n"@);
                        },
                        None => {},
                    }
                }
                assert(line_b.last() == '\n');
                lemma_line_prefix_concat(line_b, tail, p);
                assert(line_a.last() == '\n');
                lemma_line_prefix_concat(line_a, line_b + tail, p);
                assert(ppart =~= line_a + (line_b + tail));
            },
            None => {
                lemma_empty_avoids_prefix(p);
                assert(ppart =~= Seq::<char>::empty());
            },
        }
    }
    assert(!has_line_with_prefix(hpart, p)) by {
        assert(newline_free("stages:"@)) by {
            reveal_strlit("stages:");
            assert forall|j: int| 0 <= j < ("stages:"@).len() implies ("stages:"@)[j] != '\n' by {}
        }
        lemma_line_avoids_mismatched_prefix("stages:"@, Seq::<char>::empty(), p);
        assert("stages:"@ + Seq::<char>::empty() + "\n"@ =~= hpart);
    }
    lemma_stages_avoid_prefix(pipeline.stages, p);
    assert(hpart.last() == '\n');
    lemma_line_prefix_concat(hpart, spart, p);
    lemma_line_prefix_concat(ppart, hpart + spart, p);
    lemma_line_prefix_concat(tpart, ppart + (hpart + spart), p);
    assert(render_pipeline(pipeline) =~= tpart + (ppart + (hpart + spart)));
}

/// Optional-field omission: when no trigger was recorded, no line of the
/// compiled document begins with `trigger:` (names must stay inside their
/// own lines, so they may not contain newlines).
pub proof fn lemma_no_trigger_line_when_unset(pipeline: PipelineView)
    requires
        pipeline.trigger is None,
        pipeline_names_newline_free(pipeline),
    ensures
        !has_line_with_prefix(render_pipeline(pipeline), "trigger:"@),
{
    let p = "trigger:"@;
    reveal_strlit("trigger:");
    reveal_strlit("pool:");
    reveal_strlit("  name: ");
    reveal_strlit("  image: ");
    reveal_strlit("stages:");
    reveal_strlit("- stage: ");
    reveal_strlit("  jobs:");
    reveal_strlit("  - job: ");
    assert(newline_free(p)) by {
        assert forall|j: int| 0 <= j < p.len() implies p[j] != '\n' by {}
    }
    assert(mismatches(p, "pool:"@)) by {
        assert(p[0] != ("pool:"@)[0]);
    }
    assert(mismatches(p, "  name: "@)) by {
        assert(p[0] != ("  name: "@)[0]);
    }
    assert(mismatches(p, "  image: "@)) by {
        assert(p[0] != ("  image: "@)[0]);
    }
    assert(mismatches(p, "stages:"@)) by {
        assert(p[0] != ("stages:"@)[0]);
    }
    assert(mismatches(p, "- stage: "@)) by {
        assert(p[0] != ("- stage: "@)[0]);
    }
    assert(mismatches(p, "  jobs:"@)) by {
        assert(p[0] != ("  jobs:"@)[0]);
    }
    assert(mismatches(p, "  - job: "@)) by {
        assert(p[0] != ("  - job: "@)[0]);
    }
    lemma_pipeline_avoids_prefix(pipeline, p);
}

/// Optional-field omission: when no pool was stored, no line of the
/// compiled document begins with `pool:`.
pub proof fn lemma_no_pool_block_when_unset(pipeline: PipelineView)
    requires
        pipeline.pool is None,
        pipeline_names_newline_free(pipeline),
    ensures
        !has_line_with_prefix(render_pipeline(pipeline), "pool:"@),
{
    let p = "pool:"@;
    reveal_strlit("pool:");
    reveal_strlit("trigger: ");
    reveal_strlit("stages:");
    reveal_strlit("- stage: ");
    reveal_strlit("  jobs:");
    reveal_strlit("  - job: ");
    assert(newline_free(p)) by {
        assert forall|j: int| 0 <= j < p.len() implies p[j] != '\n' by {}
    }
    assert(mismatches(p, "trigger: "@)) by {
        assert(p[0] != ("trigger: "@)[0]);
    }
    assert(mismatches(p, "stages:"@)) by {
        assert(p[0] != ("stages:"@)[0]);
    }
    assert(mismatches(p, "- stage: "@)) by {
        assert(p[0] != ("- stage: "@)[0]);
    }
    assert(mismatches(p, "  jobs:"@)) by {
        assert(p[0] != ("  jobs:"@)[0]);
    }
    assert(mismatches(p, "  - job: "@)) by {
        assert(p[0] != ("  - job: "@)[0]);
    }
    lemma_pipeline_avoids_prefix(pipeline, p);
}

/// Optional-field omission: when the pool's image was never set, no line of
/// the compiled document begins with `  image:`, whether or not a pool was
/// stored.
pub proof fn lemma_no_image_line_when_unset(pipeline: PipelineView)
    requires
        pipeline.pool matches Some(pl) ==> pl.image_name is None,
        pipeline_names_newline_free(pipeline),
    ensures
        !has_line_with_prefix(render_pipeline(pipeline), "  image:"@),
{
    let p = "  image:"@;
    reveal_strlit("  image:");
    reveal_strlit("trigger: ");
    reveal_strlit("pool:");
    reveal_strlit("  name: ");
    reveal_strlit("stages:");
    reveal_strlit("- stage: ");
    reveal_strlit("  jobs:");
    reveal_strlit("  - job: ");
    assert(newline_free(p)) by {
        assert forall|j: int| 0 <= j < p.len() implies p[j] != '\n' by {}
    }
    assert(mismatches(p, "trigger: "@)) by {
        assert(p[0] != ("trigger: "@)[0]);
    }
    assert(mismatches(p, "pool:"@)) by {
        assert(p[0] != ("pool:"@)[0]);
    }
    assert(mismatches(p, "  name: "@)) by {
        assert(p[2] != ("  name: "@)[2]);
    }
    assert(mismatches(p, "stages:"@)) by {
        assert(p[0] != ("stages:"@)[0]);
    }
    assert(mismatches(p, "- stage: "@)) by {
        assert(p[0] != ("- stage: "@)[0]);
    }
    assert(mismatches(p, "  jobs:"@)) by {
        assert(p[2] != ("  jobs:"@)[2]);
    }
    assert(mismatches(p, "  - job: "@)) by {
        assert(p[2] != ("  - job: "@)[2]);
    }
    lemma_pipeline_avoids_prefix(pipeline, p);
}

/// Overwrite semantics, seen in the text: the compiled document opens with a
/// line carrying the recorded trigger value — after several `trigger` calls
/// that is the value of the last call, since each call replaces the stored
/// value.
pub proof fn lemma_trigger_line_present(pipeline: PipelineView, name: Seq<char>)
    requires
        pipeline.trigger == Some(name),
    ensures
        has_line_with_prefix(render_pipeline(pipeline), "trigger: "@ + name),
{
    reveal_strlit("trigger: ");
    reveal_strlit("\n");
    let p = "trigger: "@ + name;
    let s = render_pipeline(pipeline);
    assert(s.subrange(0, p.len() as int) =~= p);
    assert(is_line_start(s, 0));
    assert(has_line_with_prefix(s, p));
}

} // verus!
