//! The render pipelines: one per document type.
//!
//! A pipeline is a fixed list of steps (stage the document's files in a
//! scratch directory, give the primary file the name that the tool expects,
//! run the tool, copy what it produced into the cache) together with rules
//! that hold for every list: the steps are taken in order, the first failure
//! ends the run, the scratch directory is released before the run reports
//! anything, and a tool failure leaves a plain artifact that holds the error
//! text. The steps touch the disk and start processes, so the caller performs
//! them; [`Pipeline::advance`] takes how the last one went and says what comes
//! next.

use vstd::prelude::*;
use vstd::string::StringExecFns;
use crate::directories::{
    cache_file,
    document_basename,
    document_directory,
    document_file,
    get_cache_file,
    get_document_basename,
    get_document_directory,
    get_document_file,
};
use crate::error::{tool_failure_report, tool_failure_text, ErrorView, RenderError};
use crate::settings::texts_of;
use crate::store::DocumentId;
use crate::types::{DocType, RenderType};

verus! {

/// The pipeline that renders documents of one type.
#[derive(Debug, Clone, Copy, PartialEq, Eq, Structural)]
pub enum Renderer {
    /// Copies the document as it is.
    Plain,
    /// Converts Markdown into one self-contained HTML file.
    Markdown,
    /// Typesets LaTeX in two passes.
    LaTeX,
    /// Exports a notebook to PDF.
    XournalPP,
}

/// The pipeline for documents of type `doc_type`.
pub open spec fn renderer_of(doc_type: DocType) -> Renderer {
    match doc_type {
        DocType::Plain => Renderer::Plain,
        DocType::Markdown => Renderer::Markdown,
        DocType::XournalPP => Renderer::XournalPP,
        DocType::LaTeX => Renderer::LaTeX,
    }
}

/// The pipeline for documents of type `doc_type`.
pub fn get_renderer_from_doc_type(doc_type: &DocType) -> (renderer: Renderer)
    ensures
        renderer == renderer_of(*doc_type),
{
    match doc_type {
        DocType::Plain => Renderer::Plain,
        DocType::Markdown => Renderer::Markdown,
        DocType::XournalPP => Renderer::XournalPP,
        DocType::LaTeX => Renderer::LaTeX,
    }
}

/// One step of a pipeline: something the caller does to the disk or with a
/// process.
#[derive(Debug, Clone, PartialEq, Eq)]
pub enum Step {
    /// Make a fresh, empty scratch directory.
    CreateScratch,
    /// Copy every file of the directory `from` into the scratch directory.
    CopyIntoScratch { from: String },
    /// Rename the file `from` in the scratch directory to `to`.
    Rename { from: String, to: String },
    /// Run `command` with `args` in the scratch directory and capture what it
    /// writes and how it ends.
    Execute { command: String, args: Vec<String> },
    /// Copy the file `from` over the artifact `to`. Where `staged` holds,
    /// `from` is a name in the scratch directory, else a path of its own.
    CopyIntoCache { from: String, staged: bool, to: String },
}

/// A step with its texts as sequences of characters.
pub enum StepView {
    CreateScratch,
    CopyIntoScratch { from: Seq<char> },
    Rename { from: Seq<char>, to: Seq<char> },
    Execute { command: Seq<char>, args: Seq<Seq<char>> },
    CopyIntoCache { from: Seq<char>, staged: bool, to: Seq<char> },
}

impl View for Step {
    type V = StepView;

    open spec fn view(&self) -> StepView {
        match *self {
            Step::CreateScratch => StepView::CreateScratch,
            Step::CopyIntoScratch { from } => StepView::CopyIntoScratch { from: from@ },
            Step::Rename { from, to } => StepView::Rename { from: from@, to: to@ },
            Step::Execute { command, args } => StepView::Execute {
                command: command@,
                args: texts_of(args@),
            },
            Step::CopyIntoCache { from, staged, to } => StepView::CopyIntoCache {
                from: from@,
                staged,
                to: to@,
            },
        }
    }
}

/// The steps of `list`, each by its view.
pub open spec fn steps(list: Seq<Step>) -> Seq<StepView> {
    list.map_values(|step: Step| step@)
}

impl Renderer {
    /// The kind of artifact that this pipeline produces.
    pub open spec fn produces(self) -> RenderType {
        match self {
            Renderer::Plain => RenderType::Plain,
            Renderer::Markdown => RenderType::Html,
            Renderer::LaTeX => RenderType::Pdf,
            Renderer::XournalPP => RenderType::Pdf,
        }
    }

    /// The name that the tool of this pipeline expects its input under.
    pub open spec fn input_name(self) -> Seq<char> {
        match self {
            Renderer::Plain => Seq::<char>::empty(),
            Renderer::Markdown => "in.md"@,
            Renderer::LaTeX => "in.tex"@,
            Renderer::XournalPP => "in.xopp"@,
        }
    }

    /// The name of the file that the tool of this pipeline leaves behind.
    pub open spec fn output_name(self) -> Seq<char> {
        match self {
            Renderer::Plain => Seq::<char>::empty(),
            Renderer::Markdown => "out.html"@,
            Renderer::LaTeX => "in.pdf"@,
            Renderer::XournalPP => "out.pdf"@,
        }
    }

    /// The tool invocations of this pipeline, in order. Every one of them has
    /// to end with status zero. LaTeX takes a draft pass before the final one.
    pub open spec fn invocations(self) -> Seq<StepView> {
        match self {
            Renderer::Plain => Seq::<StepView>::empty(),
            Renderer::Markdown => seq![
                StepView::Execute {
                    command: "pandoc"@,
                    args: seq!["in.md"@, "-o"@, "out.html"@, "-s"@],
                },
            ],
            Renderer::LaTeX => seq![
                StepView::Execute {
                    command: "pdflatex"@,
                    args: seq![
                        "-draftmode"@,
                        "--interaction=nonstopmode"@,
                        "-halt-on-error"@,
                        "in.tex"@,
                    ],
                },
                StepView::Execute {
                    command: "pdflatex"@,
                    args: seq!["-halt-on-error"@, "--interaction=nonstopmode"@, "in.tex"@],
                },
            ],
            Renderer::XournalPP => seq![
                StepView::Execute {
                    command: "xournalpp"@,
                    args: seq!["-p"@, "out.pdf"@, "in.xopp"@],
                },
            ],
        }
    }

    /// The steps of this pipeline for document `id` below `data_dir`, whose
    /// primary file has the extension `extension`.
    ///
    /// The plain pipeline copies the primary file into the cache. Every other
    /// pipeline works on a copy: it stages the document's folder in a scratch
    /// directory, renames the primary file there, runs its tools and copies
    /// their output into the cache.
    pub open spec fn script(
        self,
        data_dir: Seq<char>,
        id: DocumentId,
        extension: Option<String>,
    ) -> Seq<StepView> {
        match self {
            Renderer::Plain => seq![
                StepView::CopyIntoCache {
                    from: document_file(data_dir, id, extension),
                    staged: false,
                    to: cache_file(data_dir, id),
                },
            ],
            _ => seq![
                StepView::CreateScratch,
                StepView::CopyIntoScratch { from: document_directory(data_dir, id) },
                StepView::Rename { from: document_basename(id, extension), to: self.input_name() },
            ] + self.invocations() + seq![
                StepView::CopyIntoCache {
                    from: self.output_name(),
                    staged: true,
                    to: cache_file(data_dir, id),
                },
            ],
        }
    }

    /// The kind of artifact that this pipeline produces.
    pub fn render_type(&self) -> (render_type: RenderType)
        ensures
            render_type == self.produces(),
    {
        match self {
            Renderer::Plain => RenderType::Plain,
            Renderer::Markdown => RenderType::Html,
            Renderer::LaTeX => RenderType::Pdf,
            Renderer::XournalPP => RenderType::Pdf,
        }
    }

    /// The steps of this pipeline; see [`Renderer::script`].
    pub fn render(&self, data_dir: &str, id: DocumentId, extension: &Option<String>) -> (list: Vec<
        Step,
    >)
        ensures
            steps(list@) == self.script(data_dir@, id, *extension),
    {
        let mut list: Vec<Step> = Vec::new();
        if let Renderer::Plain = self {
            list.push(
                Step::CopyIntoCache {
                    from: get_document_file(data_dir, id, extension),
                    staged: false,
                    to: get_cache_file(data_dir, id),
                },
            );
            assert(steps(list@) =~= self.script(data_dir@, id, *extension));
            return list;
        }
        list.push(Step::CreateScratch);
        list.push(Step::CopyIntoScratch { from: get_document_directory(data_dir, id) });
        let from = get_document_basename(id, extension);
        let to = get_cache_file(data_dir, id);
        match self {
            Renderer::Markdown => {
                list.push(Step::Rename { from, to: String::from_str("in.md") });
                let run = execute("pandoc", vec!["in.md", "-o", "out.html", "-s"]);
                assert(run@->Execute_args =~= seq!["in.md"@, "-o"@, "out.html"@, "-s"@]);
                list.push(run);
                list.push(Step::CopyIntoCache { from: String::from_str("out.html"), staged: true, to });
                assert(steps(list@) =~= self.script(data_dir@, id, *extension));
            },
            Renderer::LaTeX => {
                list.push(Step::Rename { from, to: String::from_str("in.tex") });
                let draft = execute(
                    "pdflatex",
                    vec!["-draftmode", "--interaction=nonstopmode", "-halt-on-error", "in.tex"],
                );
                assert(draft@->Execute_args =~= seq![
                    "-draftmode"@,
                    "--interaction=nonstopmode"@,
                    "-halt-on-error"@,
                    "in.tex"@,
                ]);
                list.push(draft);
                let last = execute(
                    "pdflatex",
                    vec!["-halt-on-error", "--interaction=nonstopmode", "in.tex"],
                );
                assert(last@->Execute_args =~= seq![
                    "-halt-on-error"@,
                    "--interaction=nonstopmode"@,
                    "in.tex"@,
                ]);
                list.push(last);
                list.push(Step::CopyIntoCache { from: String::from_str("in.pdf"), staged: true, to });
                assert(steps(list@) =~= self.script(data_dir@, id, *extension));
            },
            _ => {
                list.push(Step::Rename { from, to: String::from_str("in.xopp") });
                let run = execute("xournalpp", vec!["-p", "out.pdf", "in.xopp"]);
                assert(run@->Execute_args =~= seq!["-p"@, "out.pdf"@, "in.xopp"@]);
                list.push(run);
                list.push(Step::CopyIntoCache { from: String::from_str("out.pdf"), staged: true, to });
                assert(steps(list@) =~= self.script(data_dir@, id, *extension));
            },
        }
        list
    }
}

/// The step that runs `command` with `args`.
fn execute(command: &str, args: Vec<&str>) -> (step: Step)
    ensures
        step@ matches StepView::Execute { command: name, args: list },
        step@->Execute_command == command@,
        step@->Execute_args.len() == args@.len(),
        forall|k: int| 0 <= k < args@.len() ==> #[trigger] step@->Execute_args[k] == args@[k]@,
{
    let mut owned: Vec<String> = Vec::new();
    let mut i: usize = 0;
    while i < args.len()
        invariant
            i <= args@.len(),
            owned@.len() == i,
            forall|k: int| 0 <= k < i ==> (#[trigger] owned@[k])@ == args@[k]@,
        decreases args@.len() - i,
    {
        owned.push(String::from_str(args[i]));
        i = i + 1;
    }
    Step::Execute { command: String::from_str(command), args: owned }
}

/// How the step that the caller was told to take has gone.
#[derive(Debug, Clone, PartialEq, Eq)]
pub enum Event {
    /// It is done.
    Done,
    /// It could not be done, or the command could not be started; the text
    /// says why.
    Failed(String),
    /// The command has ended: whether with success, its exit code where it
    /// has one, and what it wrote to standard output and standard error.
    Exited { success: bool, code: Option<i32>, stdout: String, stderr: String },
}

/// An event with its texts as sequences of characters.
pub enum EventView {
    Done,
    Failed(Seq<char>),
    Exited { success: bool, code: Option<i32>, stdout: Seq<char>, stderr: Seq<char> },
}

impl View for Event {
    type V = EventView;

    open spec fn view(&self) -> EventView {
        match *self {
            Event::Done => EventView::Done,
            Event::Failed(message) => EventView::Failed(message@),
            Event::Exited { success, code, stdout, stderr } => EventView::Exited {
                success,
                code,
                stdout: stdout@,
                stderr: stderr@,
            },
        }
    }
}

/// What the caller of a pipeline has to do next.
#[derive(Debug, PartialEq, Eq)]
pub enum Action {
    /// Take this step and report how it went.
    Perform(Step),
    /// Delete the scratch directory with all it holds, and report.
    ReleaseScratch,
    /// Replace the artifact `to` by a file that holds `content`, and report.
    WriteArtifact { to: String, content: String },
    /// Nothing more: the run has ended with this outcome, which goes to the
    /// coordinator.
    Finish(Result<RenderType, RenderError>),
    /// Nothing at all: the run had ended before.
    Idle,
}

/// An action with its texts as sequences of characters.
pub enum ActionView {
    Perform(StepView),
    ReleaseScratch,
    WriteArtifact { to: Seq<char>, content: Seq<char> },
    Finish(Result<RenderType, ErrorView>),
    Idle,
}

/// The outcome of a run with the texts of its error as sequences of
/// characters.
pub open spec fn outcome_view(outcome: Result<RenderType, RenderError>) -> Result<
    RenderType,
    ErrorView,
> {
    match outcome {
        Ok(render_type) => Ok(render_type),
        Err(error) => Err(error@),
    }
}

impl View for Action {
    type V = ActionView;

    open spec fn view(&self) -> ActionView {
        match *self {
            Action::Perform(step) => ActionView::Perform(step@),
            Action::ReleaseScratch => ActionView::ReleaseScratch,
            Action::WriteArtifact { to, content } => ActionView::WriteArtifact {
                to: to@,
                content: content@,
            },
            Action::Finish(outcome) => ActionView::Finish(outcome_view(outcome)),
            Action::Idle => ActionView::Idle,
        }
    }
}

/// Where a run stands between two calls of [`Pipeline::advance`].
enum Phase {
    /// Nothing has been handed out yet.
    Ready,
    /// A step has been handed out: the command it runs, if it runs one,
    /// whether it makes the scratch directory, and whether it writes the
    /// artifact.
    Performing { tool: Option<String>, creating: bool, writing: bool },
    /// The release of the scratch directory has been handed out; the outcome
    /// waits for it.
    Releasing(Result<RenderType, RenderError>),
    /// The writing of the error text has been handed out.
    Degrading,
    /// The outcome has been handed out.
    Finished,
}

/// A phase with its texts as sequences of characters.
pub enum PhaseView {
    Ready,
    Performing { tool: Option<Seq<char>>, creating: bool, writing: bool },
    Releasing(Result<RenderType, ErrorView>),
    Degrading,
    Finished,
}

/// A run of a pipeline: what is left to do and what has happened so far.
pub struct Pipeline {
    todo: Vec<Step>,
    render_type: RenderType,
    artifact: String,
    scratch: bool,
    written: bool,
    phase: Phase,
}

/// The state of a run.
pub struct PipelineView {
    /// The steps that have not been handed out, next first.
    pub todo: Seq<StepView>,
    /// The kind of artifact that the run produces when every step succeeds.
    pub render_type: RenderType,
    /// The artifact of the document.
    pub artifact: Seq<char>,
    /// Whether a scratch directory exists.
    pub scratch: bool,
    /// Whether the run has written the artifact.
    pub written: bool,
    /// Where the run stands.
    pub phase: PhaseView,
}

/// The state of a fresh run of `renderer`.
pub open spec fn fresh_run(
    renderer: Renderer,
    data_dir: Seq<char>,
    id: DocumentId,
    extension: Option<String>,
) -> PipelineView {
    PipelineView {
        todo: renderer.script(data_dir, id, extension),
        render_type: renderer.produces(),
        artifact: cache_file(data_dir, id),
        scratch: false,
        written: false,
        phase: PhaseView::Ready,
    }
}

/// The command of a step that runs one.
pub open spec fn tool_of(step: StepView) -> Option<Seq<char>> {
    match step {
        StepView::Execute { command, .. } => Some(command),
        _ => None,
    }
}

/// The text of an optional string.
pub open spec fn text_of(text: Option<String>) -> Option<Seq<char>> {
    match text {
        Some(text) => Some(text@),
        None => None,
    }
}

/// What an event means for the step it reports on: `None` for success, else
/// the failure. Exit code zero is success. A command that ends otherwise or
/// cannot be started has failed as a tool, with what it wrote to standard
/// error or with why it did not start; a command that ended without an exit
/// code counts as ended with -1. Any other step that fails is an I/O failure.
pub open spec fn failure_of(tool: Option<Seq<char>>, event: EventView) -> Option<ErrorView> {
    match event {
        EventView::Done => None,
        EventView::Failed(message) => match tool {
            Some(tool) => Some(
                ErrorView::ToolFailed {
                    tool,
                    exit_code: -1,
                    stdout: Seq::<char>::empty(),
                    stderr: message,
                },
            ),
            None => Some(ErrorView::Io(message)),
        },
        EventView::Exited { success, code, stdout, stderr } => if success {
            None
        } else {
            match tool {
                Some(tool) => Some(
                    ErrorView::ToolFailed {
                        tool,
                        exit_code: match code {
                            Some(code) => code as int,
                            None => -1,
                        },
                        stdout,
                        stderr,
                    },
                ),
                None => Some(ErrorView::Io(stderr)),
            }
        },
    }
}

/// The run `run` in the phase `phase`.
pub open spec fn in_phase(run: PipelineView, phase: PhaseView) -> PipelineView {
    PipelineView {
        todo: run.todo,
        render_type: run.render_type,
        artifact: run.artifact,
        scratch: run.scratch,
        written: run.written,
        phase,
    }
}

/// The run `run` with or without a scratch directory.
pub open spec fn with_scratch(run: PipelineView, scratch: bool) -> PipelineView {
    PipelineView {
        todo: run.todo,
        render_type: run.render_type,
        artifact: run.artifact,
        scratch,
        written: run.written,
        phase: run.phase,
    }
}

/// The run `run` once the artifact has been written.
pub open spec fn with_artifact(run: PipelineView) -> PipelineView {
    PipelineView {
        todo: run.todo,
        render_type: run.render_type,
        artifact: run.artifact,
        scratch: run.scratch,
        written: true,
        phase: run.phase,
    }
}

/// The run `run` after a step that went well: a step that makes the scratch
/// directory leaves one, a step that writes the artifact leaves the artifact.
pub open spec fn after_step(run: PipelineView, creating: bool, writing: bool) -> PipelineView {
    PipelineView {
        todo: run.todo,
        render_type: run.render_type,
        artifact: run.artifact,
        scratch: run.scratch || creating,
        written: run.written || writing,
        phase: run.phase,
    }
}

/// Ends a run whose scratch directory is gone: a tool failure has its report
/// written in place of the artifact, any other outcome is handed out.
pub open spec fn settle(run: PipelineView, outcome: Result<RenderType, ErrorView>) -> (
    PipelineView,
    ActionView,
) {
    match outcome {
        Err(ErrorView::ToolFailed { tool, exit_code, stdout, stderr }) => (
            in_phase(run, PhaseView::Degrading),
            ActionView::WriteArtifact {
                to: run.artifact,
                content: tool_failure_text(tool, exit_code, stdout, stderr),
            },
        ),
        _ => (in_phase(run, PhaseView::Finished), ActionView::Finish(outcome)),
    }
}

/// Ends a run with `outcome`: the scratch directory goes first, if there is
/// one.
pub open spec fn conclude(run: PipelineView, outcome: Result<RenderType, ErrorView>) -> (
    PipelineView,
    ActionView,
) {
    if run.scratch {
        (in_phase(run, PhaseView::Releasing(outcome)), ActionView::ReleaseScratch)
    } else {
        settle(run, outcome)
    }
}

/// Hands out the next step, or ends the run with success when none is left.
pub open spec fn proceed(run: PipelineView) -> (PipelineView, ActionView) {
    if run.todo.len() > 0 {
        let step = run.todo[0];
        (
            PipelineView {
                todo: run.todo.drop_first(),
                render_type: run.render_type,
                artifact: run.artifact,
                scratch: run.scratch,
                written: run.written,
                phase: PhaseView::Performing {
                    tool: tool_of(step),
                    creating: step is CreateScratch,
                    writing: step is CopyIntoCache,
                },
            },
            ActionView::Perform(step),
        )
    } else {
        conclude(run, Ok(run.render_type))
    }
}

/// The state that follows `run` when `event` is reported, and what the caller
/// has to do then.
///
/// A fresh run hands out its first step whatever is reported. After a step
/// that went well comes the next one; the first failure ends the run. When
/// the run ends, with success or not, the scratch directory is released
/// before anything else, whether or not that release goes well. A tool
/// failure then has its report written as the artifact, and the run ends
/// with a plain artifact if that was written and with an I/O failure if not.
/// Along the way the run keeps track of whether a scratch directory exists
/// and of whether the artifact has been written.
pub open spec fn transition(run: PipelineView, event: EventView) -> (PipelineView, ActionView) {
    match run.phase {
        PhaseView::Ready => proceed(run),
        PhaseView::Performing { tool, creating, writing } => match failure_of(tool, event) {
            None => proceed(after_step(run, creating, writing)),
            Some(error) => conclude(run, Err(error)),
        },
        PhaseView::Releasing(outcome) => settle(with_scratch(run, false), outcome),
        PhaseView::Degrading => match failure_of(None, event) {
            None => (
                in_phase(with_artifact(run), PhaseView::Finished),
                ActionView::Finish(Ok(RenderType::Plain)),
            ),
            Some(error) => (in_phase(run, PhaseView::Finished), ActionView::Finish(Err(error))),
        },
        PhaseView::Finished => (run, ActionView::Idle),
    }
}

/// Reads what an event means for the step it reports on; see [`failure_of`].
pub fn execute_command(tool: Option<String>, event: Event) -> (result: Result<(), RenderError>)
    ensures
        match failure_of(text_of(tool), event@) {
            None => result is Ok,
            Some(error) => result is Err && result->Err_0@ == error,
        },
{
    match event {
        Event::Done => Ok(()),
        Event::Failed(message) => match tool {
            Some(tool) => Err(
                RenderError::ToolFailed {
                    tool,
                    exit_code: -1,
                    stdout: String::new(),
                    stderr: message,
                },
            ),
            None => Err(RenderError::Io(message)),
        },
        Event::Exited { success, code, stdout, stderr } => {
            if success {
                Ok(())
            } else {
                match tool {
                    Some(tool) => Err(
                        RenderError::ToolFailed {
                            tool,
                            exit_code: match code {
                                Some(code) => code,
                                None => -1,
                            },
                            stdout,
                            stderr,
                        },
                    ),
                    None => Err(RenderError::Io(stderr)),
                }
            }
        },
    }
}

impl View for Phase {
    type V = PhaseView;

    closed spec fn view(&self) -> PhaseView {
        match *self {
            Phase::Ready => PhaseView::Ready,
            Phase::Performing { tool, creating, writing } => PhaseView::Performing {
                tool: text_of(tool),
                creating,
                writing,
            },
            Phase::Releasing(outcome) => PhaseView::Releasing(outcome_view(outcome)),
            Phase::Degrading => PhaseView::Degrading,
            Phase::Finished => PhaseView::Finished,
        }
    }
}

impl View for Pipeline {
    type V = PipelineView;

    closed spec fn view(&self) -> PipelineView {
        PipelineView {
            todo: steps(self.todo@),
            render_type: self.render_type,
            artifact: self.artifact@,
            scratch: self.scratch,
            written: self.written,
            phase: self.phase@,
        }
    }
}

impl Pipeline {
    /// A fresh run of `renderer` for document `id` below `data_dir`, whose
    /// primary file has the extension `extension`.
    pub fn new(renderer: Renderer, data_dir: &str, id: DocumentId, extension: &Option<String>)
        -> (run: Pipeline)
        ensures
            run@ == fresh_run(renderer, data_dir@, id, *extension),
    {
        Pipeline {
            todo: renderer.render(data_dir, id, extension),
            render_type: renderer.render_type(),
            artifact: get_cache_file(data_dir, id),
            scratch: false,
            written: false,
            phase: Phase::Ready,
        }
    }

    /// Whether the run has handed out its outcome.
    pub fn is_finished(&self) -> (finished: bool)
        ensures
            finished == (self@.phase is Finished),
    {
        match self.phase {
            Phase::Finished => true,
            _ => false,
        }
    }

    fn settle(&mut self, outcome: Result<RenderType, RenderError>) -> (action: Action)
        ensures
            (final(self)@, action@) == settle(old(self)@, outcome_view(outcome)),
    {
        match outcome {
            Err(RenderError::ToolFailed { tool, exit_code, stdout, stderr }) => {
                self.phase = Phase::Degrading;
                Action::WriteArtifact {
                    to: self.artifact.clone(),
                    content: tool_failure_report(
                        tool.as_str(),
                        exit_code,
                        stdout.as_str(),
                        stderr.as_str(),
                    ),
                }
            },
            _ => {
                self.phase = Phase::Finished;
                Action::Finish(outcome)
            },
        }
    }

    fn conclude(&mut self, outcome: Result<RenderType, RenderError>) -> (action: Action)
        ensures
            (final(self)@, action@) == conclude(old(self)@, outcome_view(outcome)),
    {
        if self.scratch {
            self.phase = Phase::Releasing(outcome);
            Action::ReleaseScratch
        } else {
            self.settle(outcome)
        }
    }

    fn proceed(&mut self) -> (action: Action)
        ensures
            (final(self)@, action@) == proceed(old(self)@),
    {
        if self.todo.len() > 0 {
            let step = self.todo.remove(0);
            assert(steps(self.todo@) =~= steps(old(self).todo@).drop_first());
            let tool = match &step {
                Step::Execute { command, .. } => Some(command.clone()),
                _ => None,
            };
            let creating = match &step {
                Step::CreateScratch => true,
                _ => false,
            };
            let writing = match &step {
                Step::CopyIntoCache { .. } => true,
                _ => false,
            };
            self.phase = Phase::Performing { tool, creating, writing };
            Action::Perform(step)
        } else {
            let render_type = self.render_type;
            self.conclude(Ok(render_type))
        }
    }

    /// Takes how the last action went and says what comes next; see
    /// [`transition`]. The first call reports on nothing, and what it is
    /// given does not matter.
    pub fn advance(&mut self, event: Event) -> (action: Action)
        ensures
            (final(self)@, action@) == transition(old(self)@, event@),
    {
        let mut phase = Phase::Finished;
        core::mem::swap(&mut self.phase, &mut phase);
        match phase {
            Phase::Ready => self.proceed(),
            Phase::Performing { tool, creating, writing } => match execute_command(tool, event) {
                Ok(()) => {
                    if creating {
                        self.scratch = true;
                    }
                    if writing {
                        self.written = true;
                    }
                    self.proceed()
                },
                Err(error) => self.conclude(Err(error)),
            },
            Phase::Releasing(outcome) => {
                self.scratch = false;
                self.settle(outcome)
            },
            Phase::Degrading => match execute_command(None, event) {
                Ok(()) => {
                    self.written = true;
                    Action::Finish(Ok(RenderType::Plain))
                },
                Err(error) => Action::Finish(Err(error)),
            },
            Phase::Finished => Action::Idle,
        }
    }
}

/// Whether a run that is past its steps has let go of its scratch directory.
pub open spec fn tidy(run: PipelineView) -> bool {
    (run.phase is Degrading || run.phase is Finished) ==> !run.scratch
}

/// An upper bound on the reports that a run still takes before it has
/// ended.
pub open spec fn reports_left(run: PipelineView) -> nat {
    match run.phase {
        PhaseView::Ready => run.todo.len() + 4,
        PhaseView::Performing { .. } => run.todo.len() + 3,
        PhaseView::Releasing(_) => 2,
        PhaseView::Degrading => 1,
        PhaseView::Finished => 0,
    }
}

/// The scratch directory is released on every path: a fresh run has none, a
/// run that has let go of it stays that way, and whenever a run hands out its
/// outcome or has the error text written, its scratch directory is gone. It
/// goes only by a release that the caller was told to make.
pub proof fn lemma_scratch_released(run: PipelineView, event: EventView)
    requires
        tidy(run),
    ensures
        ({
            let (next, action) = transition(run, event);
            &&& tidy(next)
            &&& action is Finish || action is WriteArtifact ==> !next.scratch
            &&& run.scratch && !next.scratch ==> run.phase is Releasing
            &&& next.phase is Releasing ==> action is ReleaseScratch && next.scratch
        }),
{
}

/// A fresh run holds no scratch directory.
pub proof fn lemma_fresh_run_is_tidy(
    renderer: Renderer,
    data_dir: Seq<char>,
    id: DocumentId,
    extension: Option<String>,
)
    ensures
        tidy(fresh_run(renderer, data_dir, id, extension)),
{
}

/// Every run ends: each report brings a run that has not ended closer to its
/// end, and a run that has ended asks for nothing more.
pub proof fn lemma_run_ends(run: PipelineView, event: EventView)
    ensures
        ({
            let (next, action) = transition(run, event);
            &&& !(run.phase is Finished) ==> reports_left(next) < reports_left(run)
            &&& run.phase is Finished ==> next == run && action is Idle
            &&& action is Finish ==> next.phase is Finished
        }),
{
}

/// The steps are taken in the order of the script, one for each report of
/// success, and nothing is skipped: while steps are left, a step that went
/// well is followed by the first of them.
pub proof fn lemma_steps_in_order(run: PipelineView, event: EventView)
    requires
        run.phase is Performing,
        failure_of(run.phase->Performing_tool, event) is None,
        run.todo.len() > 0,
    ensures
        ({
            let (next, action) = transition(run, event);
            &&& action == ActionView::Perform(run.todo[0])
            &&& next.todo == run.todo.drop_first()
        }),
{
}

/// Only a run whose every step went well ends with the kind that its
/// pipeline produces: the outcome after a failed step is never a success
/// unless the failure was a tool's, in which case it is the plain artifact
/// with the error text.
pub proof fn lemma_failure_ends_run(run: PipelineView, event: EventView, release: EventView)
    requires
        run.phase is Performing,
        failure_of(run.phase->Performing_tool, event) is Some,
    ensures
        ({
            let error = failure_of(run.phase->Performing_tool, event)->Some_0;
            let (next, action) = transition(run, event);
            let (last, then_action) = if run.scratch {
                transition(next, release)
            } else {
                (next, action)
            };
            &&& run.scratch ==> action is ReleaseScratch
            &&& error is ToolFailed ==> then_action is WriteArtifact && last.phase is Degrading
            &&& !(error is ToolFailed) ==> then_action == ActionView::Finish(Err(error))
        }),
{
}

/// Failure caching: when a tool ends with a status other than zero, the run
/// releases its scratch directory, if it has one, and then has a text written
/// as the artifact that ends with all that the tool wrote to standard error.
/// Once that is written the run ends with a plain artifact, which the
/// coordinator records like any other.
pub proof fn lemma_tool_failure_is_reported(
    run: PipelineView,
    tool: Seq<char>,
    code: Option<i32>,
    stdout: Seq<char>,
    stderr: Seq<char>,
    release: EventView,
)
    requires
        run.phase matches PhaseView::Performing { tool: Some(command), .. } && command == tool,
    ensures
        ({
            let failed = EventView::Exited { success: false, code, stdout, stderr };
            let (next, action) = transition(run, failed);
            let (degrading, write) = if run.scratch {
                transition(next, release)
            } else {
                (next, action)
            };
            let (last, report) = transition(degrading, EventView::Done);
            &&& run.scratch ==> action is ReleaseScratch
            &&& write matches ActionView::WriteArtifact { to, content }
            &&& to == run.artifact
            &&& content.len() >= stderr.len()
            &&& content.subrange(content.len() - stderr.len(), content.len() as int) == stderr
            &&& report == ActionView::Finish(Ok(RenderType::Plain))
            &&& last.phase is Finished
            &&& !last.scratch
        }),
{
    let exit_code = match code {
        Some(code) => code as int,
        None => -1,
    };
    crate::error::lemma_report_holds_stderr(tool, exit_code, stdout, stderr);
}

/// Whether the writing of the artifact is behind a run or still ahead of it:
/// a run that is taking steps has written the artifact, or is writing it with
/// nothing left to do, or has the step that writes it as its last; a run that
/// is about to report success has written it.
pub open spec fn artifact_due(run: PipelineView) -> bool {
    match run.phase {
        PhaseView::Ready => run.todo.len() > 0 && run.todo.last() is CopyIntoCache,
        PhaseView::Performing { writing, .. } => {
            ||| run.written
            ||| run.todo.len() > 0 && run.todo.last() is CopyIntoCache
            ||| run.todo.len() == 0 && writing
        },
        PhaseView::Releasing(outcome) => outcome is Ok ==> run.written,
        _ => true,
    }
}

/// The pipeline of every document type ends with the writing of the
/// artifact.
pub proof fn lemma_fresh_run_writes_artifact(
    renderer: Renderer,
    data_dir: Seq<char>,
    id: DocumentId,
    extension: Option<String>,
)
    ensures
        artifact_due(fresh_run(renderer, data_dir, id, extension)),
{
    let script = renderer.script(data_dir, id, extension);
    match renderer {
        Renderer::Plain => {
            assert(script.len() == 1);
        },
        Renderer::LaTeX => {
            assert(script.len() == 6);
        },
        _ => {
            assert(script.len() == 5);
        },
    }
}

/// No success without an artifact: a run reports success only after the
/// artifact has been written, be it what the pipeline produced or the text of
/// a tool failure. Whoever records the outcome of a run therefore never
/// records a kind for which there is no artifact.
pub proof fn lemma_artifact_before_success(run: PipelineView, event: EventView)
    requires
        artifact_due(run),
    ensures
        ({
            let (next, action) = transition(run, event);
            &&& artifact_due(next)
            &&& run.written ==> next.written
            &&& action matches ActionView::Finish(Ok(_)) ==> next.written
        }),
{
    if run.phase is Ready && run.todo.len() > 0 {
        assert(run.todo.drop_first().len() > 0 ==> run.todo.drop_first().last() == run.todo.last());
    }
    if run.phase is Performing && run.todo.len() > 0 {
        assert(run.todo.drop_first().len() > 0 ==> run.todo.drop_first().last() == run.todo.last());
    }
}

} // verus!
