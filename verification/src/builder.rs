//! The typestate pipeline builder (stage/job variant) and its structural
//! entities.
//!
//! A `PipelineBuilder<B>` carries a phantom phase parameter `B`. Operations
//! are offered per phase, so an illegal call order does not type-check:
//! `add_job` exists only in the `Stage` phase, which is entered by opening a
//! stage. Every transition takes the builder by value, so a consumed phase
//! value cannot be reused.
//!
//! Call sequences rejected by the type system, by design:
//! - `new().add_job(...)` — no stage has been opened yet;
//! - `new().trigger(...).add_job(...)` — likewise, still at the top level;
//! - using a builder again after a transition consumed it.

use core::marker::PhantomData;
use vstd::prelude::*;
use vstd::string::StringExecFns;

use crate::laws::lemma_render_jobs_push;
use crate::laws::lemma_render_stages_push;
use crate::render::PipelineView;
use crate::render::PoolView;
use crate::render::StageView;
use crate::render::render_jobs;
use crate::render::render_pipeline;
use crate::render::render_pool;
use crate::render::render_stage_block;
use crate::render::render_stages;
use crate::render::render_trigger;

verus! {

/// Phase marker: top of the document, before a stage or (in the flat
/// variant) a job has been opened.
pub struct Global;

/// An execution pool: a required name, and an optional container image that
/// may be set while the pool is being configured.
pub struct Pool {
    pool_name: String,
    image_name: Option<String>,
}

impl View for Pool {
    type V = PoolView;

    closed spec fn view(&self) -> PoolView {
        PoolView { pool_name: self.pool_name@, image_name: match self.image_name {
            Some(image) => Some(image@),
            None => None,
        } }
    }
}

impl Pool {
    /// Sets the pool's container image, overwriting any previous value.
    pub fn image(&mut self, name: &str)
        ensures
            final(self)@ == (PoolView { image_name: Some(name@), ..old(self)@ }),
    {
        self.image_name = Some(String::from_str(name));
    }
}

/// A job: a named unit of work inside a stage. Also serves as the phase
/// marker of the flat variant's job phase.
pub struct Job {
    pub name: String,
}

impl View for Job {
    type V = Seq<char>;

    open spec fn view(&self) -> Seq<char> {
        self.name@
    }
}

impl Job {
    /// Constructs a job with the given name.
    pub fn new(name: &str) -> (job: Job)
        ensures
            job@ == name@,
    {
        Job { name: String::from_str(name) }
    }
}

/// A stage: a named, ordered collection of jobs. Also serves as the phase
/// marker of the builder's stage phase.
pub struct Stage {
    name: String,
    jobs: Vec<Job>,
}

impl View for Stage {
    type V = StageView;

    closed spec fn view(&self) -> StageView {
        StageView { name: self.name@, jobs: self.jobs@.map_values(|job: Job| job@) }
    }
}

impl Stage {
    /// Constructs a stage with the given name and no jobs yet.
    pub fn new(name: &str) -> (stage: Stage)
        ensures
            stage@ == (StageView { name: name@, jobs: Seq::empty() }),
    {
        let stage = Stage { name: String::from_str(name), jobs: Vec::new() };
        proof {
            assert(stage@.jobs =~= Seq::<Seq<char>>::empty());
        }
        stage
    }

    /// Appends a job to the stage, after all jobs added so far.
    pub fn add_job(&mut self, job: Job)
        ensures
            final(self)@ == (StageView { jobs: old(self)@.jobs.push(job@), ..old(self)@ }),
    {
        let ghost before = self.jobs@;
        self.jobs.push(job);
        proof {
            assert(self.jobs@.map_values(|j: Job| j@) =~= before.map_values(|j: Job| j@).push(
                self.jobs@.last()@,
            ));
        }
    }

    /// Renders this stage's block of the document: the stage header, the
    /// `jobs:` header, then one entry per job, in insertion order.
    pub fn compile(&self) -> (text: Option<String>)
        ensures
            text matches Some(block) && block@ == render_stage_block(self@),
    {
        let mut output = String::new();
        output.append("- stage: ");
        output.append(self.name.as_str());
        output.append("\n");
        output.append("  jobs:");
        output.append("\n");
        let ghost job_views = self.jobs@.map_values(|j: Job| j@);
        let ghost head = "- stage: "@ + self.name@ + "\n"@ + "  jobs:"@ + "\n"@;
        proof {
            assert(output@ =~= head);
            assert(job_views.take(0) =~= Seq::<Seq<char>>::empty());
            assert(head + render_jobs(job_views.take(0)) =~= head);
        }
        let mut i: usize = 0;
        while i < self.jobs.len()
            invariant
                i <= self.jobs.len(),
                job_views == self.jobs@.map_values(|j: Job| j@),
                output@ == head + render_jobs(job_views.take(i as int)),
            decreases self.jobs.len() - i,
        {
            output.append("  - job: ");
            output.append(self.jobs[i].name.as_str());
            output.append("\n");
            proof {
                assert(job_views.take(i as int + 1) =~= job_views.take(i as int).push(
                    job_views[i as int],
                ));
                lemma_render_jobs_push(job_views.take(i as int), job_views[i as int]);
                assert(output@ =~= head + render_jobs(job_views.take(i as int + 1)));
            }
            i = i + 1;
        }
        proof {
            assert(job_views.take(self.jobs.len() as int) =~= job_views);
            assert(output@ =~= render_stage_block(self@));
        }
        Some(output)
    }
}

/// The set of types that may stand as a builder phase.
pub trait BuilderState {

}

impl BuilderState for Global {

}

impl BuilderState for Job {

}

impl BuilderState for Stage {

}

/// The typestate builder. The phase parameter `B` has no runtime
/// representation; it only selects which operations are available.
pub struct PipelineBuilder<B: BuilderState> {
    _marker: PhantomData<B>,
    trigger: Option<String>,
    pool: Option<Pool>,
    stages: Vec<Stage>,
}

impl<B: BuilderState> View for PipelineBuilder<B> {
    type V = PipelineView;

    closed spec fn view(&self) -> PipelineView {
        PipelineView {
            trigger: match self.trigger {
                Some(t) => Some(t@),
                None => None,
            },
            pool: match self.pool {
                Some(p) => Some(p@),
                None => None,
            },
            stages: self.stages@.map_values(|stage: Stage| stage@),
        }
    }
}

impl<B: BuilderState> PipelineBuilder<B> {
    /// Constructs an empty builder in the `Global` phase: no trigger, no
    /// pool, no stages.
    pub fn new() -> (builder: PipelineBuilder<Global>)
        ensures
            builder@ == (PipelineView {
                trigger: None,
                pool: None,
                stages: Seq::empty(),
            }),
    {
        let builder = PipelineBuilder::<Global> {
            _marker: PhantomData,
            trigger: None,
            pool: None,
            stages: Vec::new(),
        };
        proof {
            assert(builder@.stages =~= Seq::<StageView>::empty());
        }
        builder
    }

    /// Records the pipeline trigger, overwriting any previously recorded
    /// value; the rest of the document is unchanged.
    pub fn trigger(self, trigger: &str) -> (builder: PipelineBuilder<B>)
        ensures
            builder@ == (PipelineView { trigger: Some(trigger@), ..self@ }),
    {
        PipelineBuilder {
            _marker: PhantomData,
            trigger: Some(String::from_str(trigger)),
            pool: self.pool,
            stages: self.stages,
        }
    }

    /// Opens a pool with the given name, lets the caller-supplied
    /// configuration operation finish it (it may set the image), and stores
    /// the configured pool, overwriting any previously stored one; the rest
    /// of the document is unchanged.
    pub fn pool<F: Fn(Pool) -> Pool>(self, name: &str, configure: F) -> (builder: PipelineBuilder<
        B,
    >)
        requires
            forall|fresh: Pool|
                fresh@ == (PoolView { pool_name: name@, image_name: None }) ==> call_requires(
                    configure,
                    (fresh,),
                ),
        ensures
            builder@.trigger == self@.trigger,
            builder@.stages == self@.stages,
            exists|fresh: Pool, configured: Pool|
                #[trigger] call_ensures(configure, (fresh,), configured) && fresh@ == (PoolView {
                    pool_name: name@,
                    image_name: None,
                }) && builder@.pool == Some(configured@),
    {
        let fresh = Pool { pool_name: String::from_str(name), image_name: None };
        let ghost fresh_snapshot = fresh;
        let configured = configure(fresh);
        let ghost configured_snapshot = configured;
        let builder = PipelineBuilder::<B> {
            _marker: PhantomData,
            trigger: self.trigger,
            pool: Some(configured),
            stages: self.stages,
        };
        proof {
            assert(call_ensures(configure, (fresh_snapshot,), configured_snapshot));
        }
        builder
    }

    /// Renders the composed document: the trigger block when a trigger was
    /// recorded, the pool block when a pool was stored, then the `stages:`
    /// header and one block per stage, in insertion order. Always returns
    /// the text; an empty document renders to the bare `stages:` header.
    pub fn compile(self) -> (text: Option<String>)
        ensures
            text matches Some(document) && document@ == render_pipeline(self@),
    {
        let ghost pipeline = self@;
        let PipelineBuilder { _marker, trigger, pool, stages } = self;
        let mut output = String::new();
        match trigger {
            Some(t) => {
                output.append("trigger: ");
                output.append(t.as_str());
                output.append("\n");
                output.append("\n");
            },
            None => {},
        }
        proof {
            assert(output@ =~= render_trigger(pipeline.trigger));
        }
        match pool {
            Some(p) => {
                output.append("pool:");
                output.append("\n");
                output.append("  name: ");
                output.append(p.pool_name.as_str());
                output.append("\n");
                match p.image_name {
                    Some(image) => {
                        output.append("  image: ");
                        output.append(image.as_str());
                        output.append("\n");
                    },
                    None => {},
                }
                output.append("\n");
            },
            None => {},
        }
        output.append("stages:");
        output.append("\n");
        let ghost stage_views = stages@.map_values(|stage: Stage| stage@);
        let ghost head = render_trigger(pipeline.trigger) + render_pool(pipeline.pool) + "stages:"@
            + "\n"@;
        proof {
            assert(output@ =~= head);
            assert(stage_views.take(0) =~= Seq::<StageView>::empty());
            assert(head + render_stages(stage_views.take(0)) =~= head);
        }
        let mut i: usize = 0;
        while i < stages.len()
            invariant
                i <= stages.len(),
                stage_views == stages@.map_values(|stage: Stage| stage@),
                output@ == head + render_stages(stage_views.take(i as int)),
            decreases stages.len() - i,
        {
            let block = stages[i].compile();
            match block {
                Some(text) => output.append(text.as_str()),
                None => {
                    proof {
                        assert(false);
                    }
                },
            }
            proof {
                assert(stage_views.take(i as int + 1) =~= stage_views.take(i as int).push(
                    stage_views[i as int],
                ));
                lemma_render_stages_push(stage_views.take(i as int), stage_views[i as int]);
                assert(output@ =~= head + render_stages(stage_views.take(i as int + 1)));
            }
            i = i + 1;
        }
        proof {
            assert(stage_views.take(stages.len() as int) =~= stage_views);
            assert(output@ =~= render_pipeline(pipeline));
        }
        Some(output)
    }

    /// Returns the builder unchanged; a hook for inspecting a chain while it
    /// is being written.
    pub fn debug(&self) -> (builder: &Self)
        ensures
            builder == self,
    {
        self
    }

    /// Opens a stage with the given name, lets the caller-supplied
    /// configuration operation fill it with jobs, appends the configured
    /// stage after all stages added so far, and moves the builder into the
    /// `Stage` phase. Further jobs may still be appended to this stage with
    /// `add_job`, and calling `stage` again opens a sibling stage after this
    /// one.
    pub fn stage<F: Fn(Stage) -> Stage>(self, name: String, configure: F) -> (builder:
        PipelineBuilder<Stage>)
        requires
            forall|fresh: Stage|
                fresh@ == (StageView { name: name@, jobs: Seq::empty() }) ==> call_requires(
                    configure,
                    (fresh,),
                ),
        ensures
            builder@.trigger == self@.trigger,
            builder@.pool == self@.pool,
            exists|fresh: Stage, configured: Stage|
                #[trigger] call_ensures(configure, (fresh,), configured) && fresh@ == (StageView {
                    name: name@,
                    jobs: Seq::empty(),
                }) && builder@.stages == self@.stages.push(configured@),
    {
        let fresh = Stage { name, jobs: Vec::new() };
        proof {
            assert(fresh@.jobs =~= Seq::<Seq<char>>::empty());
        }
        let ghost fresh_snapshot = fresh;
        let configured = configure(fresh);
        let ghost configured_snapshot = configured;
        let mut stages = self.stages;
        let ghost before = stages@.map_values(|stage: Stage| stage@);
        stages.push(configured);
        let builder = PipelineBuilder::<Stage> {
            _marker: PhantomData,
            trigger: self.trigger,
            pool: self.pool,
            stages,
        };
        proof {
            assert(call_ensures(configure, (fresh_snapshot,), configured_snapshot));
            assert(builder@.stages =~= before.push(configured_snapshot@));
        }
        builder
    }
}

impl PipelineBuilder<Stage> {
    /// Appends a job to the most recently opened stage, after all jobs that
    /// stage already has. On a builder without stages (unreachable through
    /// this interface) the document is left unchanged.
    pub fn add_job(self, job: Job) -> (builder: PipelineBuilder<Stage>)
        ensures
            builder@.trigger == self@.trigger,
            builder@.pool == self@.pool,
            self@.stages.len() == 0 ==> builder@.stages == self@.stages,
            self@.stages.len() > 0 ==> builder@.stages == self@.stages.update(
                self@.stages.len() - 1,
                (StageView {
                    name: self@.stages.last().name,
                    jobs: self@.stages.last().jobs.push(job@),
                }),
            ),
    {
        let ghost before = self@.stages;
        let mut stages = self.stages;
        match stages.pop() {
            Some(last) => {
                let mut last = last;
                last.add_job(job);
                stages.push(last);
                proof {
                    assert(stages@.map_values(|stage: Stage| stage@) =~= before.update(
                        before.len() - 1,
                        stages@.last()@,
                    ));
                }
            },
            None => {
                proof {
                    assert(stages@.map_values(|stage: Stage| stage@) =~= before);
                }
            },
        }
        PipelineBuilder::<Stage> {
            _marker: PhantomData,
            trigger: self.trigger,
            pool: self.pool,
            stages,
        }
    }
}

} // verus!
