//! The flat builder variant: jobs and steps, no stage grouping.
//!
//! Instead of composing structural entities, this variant appends finished
//! text to one append-only buffer as each call arrives. The same phantom
//! phase parameter gates the operations: steps can only be emitted while a
//! job is open, and a new job can only be opened at the top level.
//!
//! Call sequences rejected by the type system, by design:
//! - `new().step(...)`, `new().script(...)`, `new().echo(...)`,
//!   `new().done()` — no job is open at the top level;
//! - `job().job()`, `job().stage(...)`, `job().output()` — the open job must
//!   first be closed with `done`;
//! - using a builder again after a transition consumed it.

use core::marker::PhantomData;
use vstd::prelude::*;
use vstd::string::StringExecFns;

use crate::builder::BuilderState;
use crate::builder::Global;
use crate::builder::Job;

verus! {

/// The flat builder: one text buffer, grown monotonically, plus the phantom
/// phase parameter `B`.
pub struct FlatBuilder<B: BuilderState> {
    _marker: PhantomData<B>,
    buffer: String,
}

impl<B: BuilderState> View for FlatBuilder<B> {
    type V = Seq<char>;

    closed spec fn view(&self) -> Seq<char> {
        self.buffer@
    }
}

impl FlatBuilder<Global> {
    /// Constructs a flat builder with an empty buffer, at the top level.
    pub fn new() -> (builder: FlatBuilder<Global>)
        ensures
            builder@ == Seq::<char>::empty(),
    {
        FlatBuilder { _marker: PhantomData, buffer: String::new() }
    }

    /// Emits a stage block directly as text: the `stages:` header and one
    /// entry carrying the stage name. The builder stays at the top level,
    /// since flat stage content is unstructured text, not a sub-builder.
    pub fn stage(self, name: &str) -> (builder: FlatBuilder<Global>)
        ensures
            builder@ == self@ + "stages:"@ + "\n"@ + "- "@ + name@ + "\n"@,
    {
        let mut buffer = self.buffer;
        buffer.append("stages:");
        buffer.append("\n");
        buffer.append("- ");
        buffer.append(name);
        buffer.append("\n");
        FlatBuilder { _marker: PhantomData, buffer }
    }

    /// Emits a job header and opens the job phase, in which steps may be
    /// emitted.
    pub fn job(self) -> (builder: FlatBuilder<Job>)
        ensures
            builder@ == self@ + "job:"@ + "\n"@,
    {
        let mut buffer = self.buffer;
        buffer.append("job:");
        buffer.append("\n");
        FlatBuilder { _marker: PhantomData, buffer }
    }

    /// Emits a job header with a name field and opens the job phase.
    pub fn job_named(self, name: &str) -> (builder: FlatBuilder<Job>)
        ensures
            builder@ == self@ + "job:"@ + "\n"@ + "  name: "@ + name@ + "\n"@,
    {
        let mut buffer = self.buffer;
        buffer.append("job:");
        buffer.append("\n");
        buffer.append("  name: ");
        buffer.append(name);
        buffer.append("\n");
        FlatBuilder { _marker: PhantomData, buffer }
    }

    /// Returns the accumulated document text.
    pub fn output(self) -> (text: String)
        ensures
            text@ == self@,
    {
        self.buffer
    }
}

impl FlatBuilder<Job> {
    /// Appends one indented `step:` command line under the current job.
    pub fn step(self, command: &str) -> (builder: FlatBuilder<Job>)
        ensures
            builder@ == self@ + "  step: "@ + command@ + "\n"@,
    {
        let mut buffer = self.buffer;
        buffer.append("  step: ");
        buffer.append(command);
        buffer.append("\n");
        FlatBuilder { _marker: PhantomData, buffer }
    }

    /// Appends one indented `script:` command line under the current job.
    pub fn script(self, command: &str) -> (builder: FlatBuilder<Job>)
        ensures
            builder@ == self@ + "  script: "@ + command@ + "\n"@,
    {
        let mut buffer = self.buffer;
        buffer.append("  script: ");
        buffer.append(command);
        buffer.append("\n");
        FlatBuilder { _marker: PhantomData, buffer }
    }

    /// Convenience: wraps the message into a quoted shell `echo` invocation
    /// and emits it as a step.
    pub fn echo(self, message: &str) -> (builder: FlatBuilder<Job>)
        ensures
            builder@ == self@ + "  step: "@ + "echo \""@ + message@ + "\""@ + "\n"@,
    {
        let ghost start = self@;
        let mut command = String::from_str("echo \"");
        command.append(message);
        command.append("\"");
        let builder = self.step(command.as_str());
        proof {
            assert(builder@ =~= start + "  step: "@ + "echo \""@ + message@ + "\""@ + "\n"@);
        }
        builder
    }

    /// Closes the current job and returns to the top level, where a sibling
    /// job may be opened. The accumulated text is carried over unchanged.
    pub fn done(self) -> (builder: FlatBuilder<Global>)
        ensures
            builder@ == self@,
    {
        FlatBuilder { _marker: PhantomData, buffer: self.buffer }
    }
}

impl<B: BuilderState> FlatBuilder<B> {
    /// Returns the builder unchanged; a hook for inspecting a chain while it
    /// is being written.
    pub fn debug(&self) -> (builder: &Self)
        ensures
            builder == self,
    {
        self
    }
}

} // verus!
