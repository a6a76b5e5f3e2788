use pipeline_builder::builder::Global;
use pipeline_builder::flat::FlatBuilder;

#[test]
fn end_to_end_scenario_two() {
    let text = FlatBuilder::<Global>::new()
        .job()
        .echo("Job 1")
        .done()
        .job()
        .echo("Job 2")
        .done()
        .output();
    assert_eq!(text, "job:\n  step: echo \"Job 1\"\njob:\n  step: echo \"Job 2\"\n");
}

#[test]
fn empty_flat_document_is_empty_text() {
    assert_eq!(FlatBuilder::<Global>::new().output(), "");
}

#[test]
fn named_job_with_script_line() {
    let text = FlatBuilder::<Global>::new()
        .job_named("Deploy")
        .script("./run.sh")
        .done()
        .output();
    assert_eq!(text, "job:\n  name: Deploy\n  script: ./run.sh\n");
}

#[test]
fn steps_keep_insertion_order() {
    let text = FlatBuilder::<Global>::new()
        .job()
        .step("first")
        .step("second")
        .step("third")
        .done()
        .output();
    assert_eq!(text, "job:\n  step: first\n  step: second\n  step: third\n");
}

#[test]
fn echo_wraps_message_in_quoted_shell_command() {
    let text = FlatBuilder::<Global>::new().job().echo("hello world").done().output();
    assert_eq!(text, "job:\n  step: echo \"hello world\"\n");
}

#[test]
fn flat_stage_emits_text_block() {
    let text = FlatBuilder::<Global>::new().stage("Build").output();
    assert_eq!(text, "stages:\n- Build\n");
}

#[test]
fn flat_equivalent_call_sequences_compile_identically() {
    let build = || FlatBuilder::<Global>::new().job().echo("Job 1").done().output();
    assert_eq!(build(), build());
}

#[test]
fn flat_debug_leaves_the_builder_unchanged() {
    let builder = FlatBuilder::<Global>::new().job().step("first");
    builder.debug();
    assert_eq!(builder.done().output(), "job:\n  step: first\n");
}
