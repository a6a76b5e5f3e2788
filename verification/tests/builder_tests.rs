use pipeline_builder::builder::Global;
use pipeline_builder::builder::Job;
use pipeline_builder::builder::PipelineBuilder;
use pipeline_builder::builder::Pool;
use pipeline_builder::builder::Stage;

#[test]
fn end_to_end_scenario_one() {
    let result = PipelineBuilder::<Global>::new()
        .trigger("main")
        .pool("p1", |mut p: Pool| {
            p.image("ubuntu:latest");
            p
        })
        .stage(String::from("Build"), |mut s: Stage| {
            s.add_job(Job::new("Compile"));
            s
        })
        .compile();
    assert_eq!(
        result.unwrap(),
        "trigger: main\n\npool:\n  name: p1\n  image: ubuntu:latest\n\nstages:\n- stage: Build\n  jobs:\n  - job: Compile\n"
    );
}

#[test]
fn three_jobs_in_one_stage() {
    let result = PipelineBuilder::<Global>::new()
        .trigger("main")
        .pool("rust_meetup", |mut p: Pool| {
            p.image("ubuntu:latest");
            p
        })
        .stage(String::from("Create Artifact"), |mut s: Stage| {
            s.add_job(Job::new("Compile"));
            s.add_job(Job::new("Test"));
            s.add_job(Job::new("Apply DB Migrations"));
            s
        })
        .compile();
    assert_eq!(
        result.unwrap(),
        "trigger: main\n\npool:\n  name: rust_meetup\n  image: ubuntu:latest\n\nstages:\n- stage: Create Artifact\n  jobs:\n  - job: Compile\n  - job: Test\n  - job: Apply DB Migrations\n"
    );
}

#[test]
fn empty_document_renders_bare_stages_header() {
    let result = PipelineBuilder::<Global>::new().compile();
    assert_eq!(result.unwrap(), "stages:\n");
}

#[test]
fn trigger_overwrite_keeps_last_value() {
    let result = PipelineBuilder::<Global>::new()
        .trigger("a")
        .trigger("b")
        .compile();
    let text = result.unwrap();
    assert_eq!(text, "trigger: b\n\nstages:\n");
    assert!(!text.contains("trigger: a"));
}

#[test]
fn pool_overwrite_keeps_last_value() {
    let result = PipelineBuilder::<Global>::new()
        .pool("first", |p: Pool| p)
        .pool("second", |p: Pool| p)
        .compile();
    assert_eq!(result.unwrap(), "pool:\n  name: second\n\nstages:\n");
}

#[test]
fn image_overwrite_keeps_last_value() {
    let result = PipelineBuilder::<Global>::new()
        .pool("p1", |mut p: Pool| {
            p.image("old");
            p.image("new");
            p
        })
        .compile();
    assert_eq!(result.unwrap(), "pool:\n  name: p1\n  image: new\n\nstages:\n");
}

#[test]
fn unset_trigger_is_omitted() {
    let result = PipelineBuilder::<Global>::new()
        .pool("p1", |p: Pool| p)
        .compile();
    let text = result.unwrap();
    assert!(!text.contains("trigger:"));
    assert_eq!(text, "pool:\n  name: p1\n\nstages:\n");
}

#[test]
fn unset_pool_is_omitted() {
    let result = PipelineBuilder::<Global>::new().trigger("main").compile();
    let text = result.unwrap();
    assert!(!text.contains("pool:"));
    assert_eq!(text, "trigger: main\n\nstages:\n");
}

#[test]
fn unset_image_is_omitted() {
    let result = PipelineBuilder::<Global>::new()
        .pool("p1", |p: Pool| p)
        .compile();
    assert!(!result.unwrap().contains("image:"));
}

#[test]
fn stages_and_jobs_keep_insertion_order() {
    let result = PipelineBuilder::<Global>::new()
        .stage(String::from("First"), |mut s: Stage| {
            s.add_job(Job::new("a1"));
            s.add_job(Job::new("a2"));
            s
        })
        .stage(String::from("Second"), |mut s: Stage| {
            s.add_job(Job::new("b1"));
            s
        })
        .compile();
    assert_eq!(
        result.unwrap(),
        "stages:\n- stage: First\n  jobs:\n  - job: a1\n  - job: a2\n- stage: Second\n  jobs:\n  - job: b1\n"
    );
}

#[test]
fn add_job_appends_to_most_recent_stage() {
    let result = PipelineBuilder::<Global>::new()
        .stage(String::from("First"), |mut s: Stage| {
            s.add_job(Job::new("a1"));
            s
        })
        .stage(String::from("Second"), |s: Stage| s)
        .add_job(Job::new("b1"))
        .add_job(Job::new("b2"))
        .compile();
    assert_eq!(
        result.unwrap(),
        "stages:\n- stage: First\n  jobs:\n  - job: a1\n- stage: Second\n  jobs:\n  - job: b1\n  - job: b2\n"
    );
}

#[test]
fn stage_compiles_its_own_block() {
    let mut stage = Stage::new("Deploy");
    stage.add_job(Job::new("Ship"));
    assert_eq!(stage.compile().unwrap(), "- stage: Deploy\n  jobs:\n  - job: Ship\n");
}

#[test]
fn stage_without_jobs_compiles_headers_only() {
    let stage = Stage::new("Idle");
    assert_eq!(stage.compile().unwrap(), "- stage: Idle\n  jobs:\n");
}

#[test]
fn equivalent_call_sequences_compile_identically() {
    let build = || {
        PipelineBuilder::<Global>::new()
            .trigger("main")
            .pool("p1", |mut p: Pool| {
                p.image("ubuntu:latest");
                p
            })
            .stage(String::from("Build"), |mut s: Stage| {
                s.add_job(Job::new("Compile"));
                s
            })
            .compile()
    };
    assert_eq!(build().unwrap(), build().unwrap());
}

#[test]
fn debug_leaves_the_builder_unchanged() {
    let builder = PipelineBuilder::<Global>::new().trigger("main");
    builder.debug();
    assert_eq!(builder.compile().unwrap(), "trigger: main\n\nstages:\n");
}
