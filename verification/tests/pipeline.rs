use filespider::error::RenderError;
use filespider::pipeline::{
    execute_command, get_renderer_from_doc_type, Action, Event, Pipeline, Renderer, Step,
};
use filespider::types::{DocType, RenderType};

const ID: u128 = 0xa346b1e3_2c11_4c72_87b1_122bfcc43560;
const NAME: &str = "a346b1e3-2c11-4c72-87b1-122bfcc43560";

fn strings(list: &[&str]) -> Vec<String> {
    list.iter().map(|s| s.to_string()).collect()
}

fn staged(ext: &str, input: &str) -> Vec<Step> {
    vec![
        Step::CreateScratch,
        Step::CopyIntoScratch { from: format!("/data/{}", NAME) },
        Step::Rename { from: format!("{}.{}", NAME, ext), to: input.to_string() },
    ]
}

fn into_cache(from: &str) -> Step {
    Step::CopyIntoCache {
        from: from.to_string(),
        staged: true,
        to: format!("/data/.cache/{}", NAME),
    }
}

fn exited(code: i32, stdout: &str, stderr: &str) -> Event {
    Event::Exited {
        success: code == 0,
        code: Some(code),
        stdout: stdout.to_string(),
        stderr: stderr.to_string(),
    }
}

#[test]
fn every_document_type_has_its_pipeline() {
    assert_eq!(get_renderer_from_doc_type(&DocType::Plain), Renderer::Plain);
    assert_eq!(get_renderer_from_doc_type(&DocType::Markdown), Renderer::Markdown);
    assert_eq!(get_renderer_from_doc_type(&DocType::LaTeX), Renderer::LaTeX);
    assert_eq!(get_renderer_from_doc_type(&DocType::XournalPP), Renderer::XournalPP);
}

#[test]
fn pipelines_produce_their_kinds() {
    assert_eq!(Renderer::Plain.render_type(), RenderType::Plain);
    assert_eq!(Renderer::Markdown.render_type(), RenderType::Html);
    assert_eq!(Renderer::LaTeX.render_type(), RenderType::Pdf);
    assert_eq!(Renderer::XournalPP.render_type(), RenderType::Pdf);
}

#[test]
fn plain_pipeline_copies_the_primary_file() {
    assert_eq!(
        Renderer::Plain.render("/data", ID, &Some("txt".to_string())),
        vec![Step::CopyIntoCache {
            from: format!("/data/{}/{}.txt", NAME, NAME),
            staged: false,
            to: format!("/data/.cache/{}", NAME),
        }]
    );
    assert_eq!(
        Renderer::Plain.render("/data", ID, &None),
        vec![Step::CopyIntoCache {
            from: format!("/data/{}/{}", NAME, NAME),
            staged: false,
            to: format!("/data/.cache/{}", NAME),
        }]
    );
}

#[test]
fn markdown_pipeline_converts_to_standalone_html() {
    let mut expected = staged("md", "in.md");
    expected.push(Step::Execute {
        command: "pandoc".to_string(),
        args: strings(&["in.md", "-o", "out.html", "-s"]),
    });
    expected.push(into_cache("out.html"));
    assert_eq!(Renderer::Markdown.render("/data", ID, &Some("md".to_string())), expected);
}

#[test]
fn latex_pipeline_typesets_twice() {
    let mut expected = staged("tex", "in.tex");
    expected.push(Step::Execute {
        command: "pdflatex".to_string(),
        args: strings(&["-draftmode", "--interaction=nonstopmode", "-halt-on-error", "in.tex"]),
    });
    expected.push(Step::Execute {
        command: "pdflatex".to_string(),
        args: strings(&["-halt-on-error", "--interaction=nonstopmode", "in.tex"]),
    });
    expected.push(into_cache("in.pdf"));
    assert_eq!(Renderer::LaTeX.render("/data", ID, &Some("tex".to_string())), expected);
}

#[test]
fn notebook_pipeline_exports_to_pdf() {
    let mut expected = staged("xopp", "in.xopp");
    expected.push(Step::Execute {
        command: "xournalpp".to_string(),
        args: strings(&["-p", "out.pdf", "in.xopp"]),
    });
    expected.push(into_cache("out.pdf"));
    assert_eq!(Renderer::XournalPP.render("/data", ID, &Some("xopp".to_string())), expected);
}

#[test]
fn exit_code_zero_is_success() {
    assert_eq!(execute_command(Some("pandoc".to_string()), exited(0, "out", "warn")), Ok(()));
    assert_eq!(execute_command(None, Event::Done), Ok(()));
    assert_eq!(execute_command(Some("pandoc".to_string()), Event::Done), Ok(()));
}

#[test]
fn other_exit_codes_are_tool_failures() {
    assert_eq!(
        execute_command(Some("pandoc".to_string()), exited(3, "out", "bad input")),
        Err(RenderError::ToolFailed {
            tool: "pandoc".to_string(),
            exit_code: 3,
            stdout: "out".to_string(),
            stderr: "bad input".to_string(),
        })
    );
}

#[test]
fn a_missing_exit_code_counts_as_minus_one() {
    let killed = Event::Exited {
        success: false,
        code: None,
        stdout: String::new(),
        stderr: "killed".to_string(),
    };
    assert_eq!(
        execute_command(Some("pdflatex".to_string()), killed),
        Err(RenderError::ToolFailed {
            tool: "pdflatex".to_string(),
            exit_code: -1,
            stdout: String::new(),
            stderr: "killed".to_string(),
        })
    );
}

#[test]
fn a_command_that_does_not_start_is_a_tool_failure() {
    assert_eq!(
        execute_command(Some("pandoc".to_string()), Event::Failed("not found".to_string())),
        Err(RenderError::ToolFailed {
            tool: "pandoc".to_string(),
            exit_code: -1,
            stdout: String::new(),
            stderr: "not found".to_string(),
        })
    );
}

#[test]
fn other_failures_are_io_failures() {
    assert_eq!(
        execute_command(None, Event::Failed("disk full".to_string())),
        Err(RenderError::Io("disk full".to_string()))
    );
    assert_eq!(
        execute_command(None, exited(1, "", "cp: no such file")),
        Err(RenderError::Io("cp: no such file".to_string()))
    );
}

#[test]
fn successful_run_takes_every_step_then_releases() {
    let steps = Renderer::LaTeX.render("/data", ID, &Some("tex".to_string()));
    let mut run = Pipeline::new(Renderer::LaTeX, "/data", ID, &Some("tex".to_string()));
    let mut action = run.advance(Event::Done);
    for step in steps {
        let reply = match step {
            Step::Execute { .. } => exited(0, "", ""),
            _ => Event::Done,
        };
        assert_eq!(action, Action::Perform(step));
        assert!(!run.is_finished());
        action = run.advance(reply);
    }
    assert_eq!(action, Action::ReleaseScratch);
    assert_eq!(run.advance(Event::Done), Action::Finish(Ok(RenderType::Pdf)));
    assert!(run.is_finished());
    assert_eq!(run.advance(Event::Done), Action::Idle);
    assert_eq!(run.advance(Event::Failed("late".to_string())), Action::Idle);
}

#[test]
fn plain_run_needs_no_scratch() {
    let mut run = Pipeline::new(Renderer::Plain, "/data", ID, &None);
    assert!(matches!(run.advance(Event::Done), Action::Perform(Step::CopyIntoCache { .. })));
    assert_eq!(run.advance(Event::Done), Action::Finish(Ok(RenderType::Plain)));
    assert!(run.is_finished());
}

#[test]
fn failed_copy_into_cache_is_handed_back() {
    let mut run = Pipeline::new(Renderer::Plain, "/data", ID, &None);
    run.advance(Event::Done);
    assert_eq!(
        run.advance(Event::Failed("copying into cache failed".to_string())),
        Action::Finish(Err(RenderError::Io("copying into cache failed".to_string())))
    );
    assert_eq!(run.advance(Event::Done), Action::Idle);
}

#[test]
fn scratch_that_was_not_made_is_not_released() {
    let mut run = Pipeline::new(Renderer::Markdown, "/data", ID, &Some("md".to_string()));
    assert_eq!(run.advance(Event::Done), Action::Perform(Step::CreateScratch));
    assert_eq!(
        run.advance(Event::Failed("no space".to_string())),
        Action::Finish(Err(RenderError::Io("no space".to_string())))
    );
}

#[test]
fn failed_staging_releases_the_scratch() {
    let mut run = Pipeline::new(Renderer::Markdown, "/data", ID, &Some("md".to_string()));
    run.advance(Event::Done);
    assert!(matches!(run.advance(Event::Done), Action::Perform(Step::CopyIntoScratch { .. })));
    assert_eq!(
        run.advance(Event::Failed("copying into tempdir failed".to_string())),
        Action::ReleaseScratch
    );
    assert_eq!(
        run.advance(Event::Done),
        Action::Finish(Err(RenderError::Io("copying into tempdir failed".to_string())))
    );
}

#[test]
fn tool_failure_leaves_a_plain_artifact_with_the_error_text() {
    let mut run = Pipeline::new(Renderer::Markdown, "/data", ID, &Some("md".to_string()));
    run.advance(Event::Done);
    run.advance(Event::Done);
    run.advance(Event::Done);
    assert!(matches!(run.advance(Event::Done), Action::Perform(Step::Execute { .. })));
    assert_eq!(run.advance(exited(64, "", "unknown option")), Action::ReleaseScratch);
    let write = run.advance(Event::Done);
    match &write {
        Action::WriteArtifact { to, content } => {
            assert_eq!(to, &format!("/data/.cache/{}", NAME));
            assert!(content.contains("unknown option"));
            assert!(content.ends_with("unknown option"));
            assert_eq!(
                content,
                "Command pandoc failed with exit code 64\n\nSTDOUT\n\n\nSTDERR\nPunknown option"
            );
        }
        other => panic!("expected the error text to be written, got {:?}", other),
    }
    assert!(!run.is_finished());
    assert_eq!(run.advance(Event::Done), Action::Finish(Ok(RenderType::Plain)));
    assert!(run.is_finished());
}

#[test]
fn draft_pass_failure_stops_before_the_final_pass() {
    let mut run = Pipeline::new(Renderer::LaTeX, "/data", ID, &Some("tex".to_string()));
    run.advance(Event::Done);
    run.advance(Event::Done);
    run.advance(Event::Done);
    assert!(matches!(run.advance(Event::Done), Action::Perform(Step::Execute { .. })));
    assert_eq!(run.advance(exited(1, "log", "! Undefined control sequence")), Action::ReleaseScratch);
    assert!(matches!(run.advance(Event::Done), Action::WriteArtifact { .. }));
    assert_eq!(run.advance(Event::Done), Action::Finish(Ok(RenderType::Plain)));
}

#[test]
fn error_text_that_cannot_be_written_is_an_io_failure() {
    let mut run = Pipeline::new(Renderer::XournalPP, "/data", ID, &Some("xopp".to_string()));
    run.advance(Event::Done);
    run.advance(Event::Done);
    run.advance(Event::Done);
    run.advance(Event::Done);
    assert_eq!(run.advance(exited(2, "", "broken file")), Action::ReleaseScratch);
    assert!(matches!(run.advance(Event::Failed("ignored".to_string())), Action::WriteArtifact { .. }));
    assert_eq!(
        run.advance(Event::Failed("read-only".to_string())),
        Action::Finish(Err(RenderError::Io("read-only".to_string())))
    );
    assert!(run.is_finished());
}
