use std::collections::HashMap;

use filespider::directories::{get_document_directory, get_document_file};
use filespider::error::RenderError;
use filespider::fingerprint::{hash_document_files, Entry};
use filespider::pipeline::{get_renderer_from_doc_type, Action, Event, Pipeline, Step};
use filespider::render::{
    get_from_cache, get_rendered, insert_into_cache, render, render_task, InFlight, RenderStep,
};
use filespider::store::RenderStore;
use filespider::types::{DocType, RenderType};

const ID: u128 = 0xa346b1e3_2c11_4c72_87b1_122bfcc43560;
const OTHER: u128 = 0x73426d5b_1ead_4670_b13e_aa3c5358fc92;
const ARTIFACT: &str = "/data/.cache/a346b1e3-2c11-4c72-87b1-122bfcc43560";

fn folder(modified: u128) -> Entry {
    Entry::Directory {
        name: b"doc".to_vec(),
        entries: vec![Entry::File { name: b"doc.txt".to_vec(), modified }],
    }
}

/// A disk in memory, and a tool that either fails or wraps its input.
struct World {
    files: HashMap<String, Vec<u8>>,
    scratch: Option<HashMap<String, Vec<u8>>>,
    tool_fails_with: Option<&'static str>,
    tool_runs: usize,
}

impl World {
    fn new() -> World {
        World { files: HashMap::new(), scratch: None, tool_fails_with: None, tool_runs: 0 }
    }

    fn perform(&mut self, action: &Action) -> Event {
        match action {
            Action::Perform(Step::CreateScratch) => {
                self.scratch = Some(HashMap::new());
                Event::Done
            }
            Action::Perform(Step::CopyIntoScratch { from }) => {
                let prefix = format!("{}/", from);
                let staged: Vec<(String, Vec<u8>)> = self
                    .files
                    .iter()
                    .filter(|(path, _)| path.starts_with(&prefix))
                    .map(|(path, bytes)| (path[prefix.len()..].to_string(), bytes.clone()))
                    .collect();
                self.scratch.as_mut().unwrap().extend(staged);
                Event::Done
            }
            Action::Perform(Step::Rename { from, to }) => {
                let scratch = self.scratch.as_mut().unwrap();
                match scratch.remove(from) {
                    Some(bytes) => {
                        scratch.insert(to.clone(), bytes);
                        Event::Done
                    }
                    None => Event::Failed(format!("{} not found", from)),
                }
            }
            Action::Perform(Step::Execute { command, args }) => {
                self.tool_runs += 1;
                if let Some(stderr) = self.tool_fails_with {
                    return Event::Exited {
                        success: false,
                        code: Some(1),
                        stdout: String::new(),
                        stderr: stderr.to_string(),
                    };
                }
                assert_eq!(command, "pandoc");
                let scratch = self.scratch.as_mut().unwrap();
                let source = scratch.get(&args[0]).unwrap().clone();
                let mut html = b"<!DOCTYPE html><html><body>".to_vec();
                html.extend(source);
                html.extend(b"</body></html>");
                scratch.insert(args[2].clone(), html);
                Event::Exited {
                    success: true,
                    code: Some(0),
                    stdout: String::new(),
                    stderr: String::new(),
                }
            }
            Action::Perform(Step::CopyIntoCache { from, staged, to }) => {
                let bytes = if *staged {
                    self.scratch.as_ref().unwrap().get(from).cloned()
                } else {
                    self.files.get(from).cloned()
                };
                match bytes {
                    Some(bytes) => {
                        self.files.insert(to.clone(), bytes);
                        Event::Done
                    }
                    None => Event::Failed("copying into cache failed".to_string()),
                }
            }
            Action::ReleaseScratch => {
                self.scratch = None;
                Event::Done
            }
            Action::WriteArtifact { to, content } => {
                self.files.insert(to.clone(), content.as_bytes().to_vec());
                Event::Done
            }
            Action::Finish(_) | Action::Idle => panic!("nothing to perform"),
        }
    }

    fn run(&mut self, doc_type: DocType, extension: &Option<String>) -> Result<RenderType, RenderError> {
        let renderer = get_renderer_from_doc_type(&doc_type);
        let mut pipeline = Pipeline::new(renderer, "/data", ID, extension);
        let mut event = Event::Done;
        loop {
            match pipeline.advance(event) {
                Action::Finish(outcome) => {
                    assert!(self.scratch.is_none());
                    return outcome;
                }
                action => event = self.perform(&action),
            }
        }
    }
}

/// What a caller does with one request, from the request to the result.
fn request(
    world: &mut World,
    store: &mut RenderStore,
    renderers: &mut InFlight,
    doc_type: DocType,
    extension: &Option<String>,
    tree: &Entry,
) -> Result<(String, RenderType), RenderError> {
    match render(store, renderers, "/data", ID, Some(tree))? {
        RenderStep::Cached { path, render_type } => Ok((path, render_type)),
        RenderStep::Wait { hash } => get_rendered(store, "/data", ID, hash),
        RenderStep::Run { hash } => {
            let outcome = world.run(doc_type, extension);
            render_task(store, renderers, ID, hash, outcome)?;
            get_rendered(store, "/data", ID, hash)
        }
    }
}

#[test]
fn missing_document_is_not_found() {
    let store = RenderStore::new();
    let mut renderers = InFlight::new();
    assert_eq!(
        render(&store, &mut renderers, "/data", ID, None),
        Err(RenderError::DocumentNotFound)
    );
    assert!(renderers.is_empty());
}

#[test]
fn miss_starts_a_run_and_registers_it() {
    let store = RenderStore::new();
    let mut renderers = InFlight::new();
    let tree = folder(5);
    let hash = hash_document_files(Some(&tree)).unwrap();
    assert_eq!(
        render(&store, &mut renderers, "/data", ID, Some(&tree)),
        Ok(RenderStep::Run { hash })
    );
    assert!(renderers.contains(ID, hash));
    assert!(!renderers.contains(OTHER, hash));
    assert!(!renderers.contains(ID, hash.wrapping_add(1)));
}

#[test]
fn hit_returns_the_artifact_without_a_run() {
    let mut store = RenderStore::new();
    let mut renderers = InFlight::new();
    let tree = folder(5);
    let hash = hash_document_files(Some(&tree)).unwrap();
    store.upsert(ID, hash, RenderType::Pdf);
    assert_eq!(
        render(&store, &mut renderers, "/data", ID, Some(&tree)),
        Ok(RenderStep::Cached { path: ARTIFACT.to_string(), render_type: RenderType::Pdf })
    );
    assert!(renderers.is_empty());
}

#[test]
fn stale_record_is_a_miss() {
    let mut store = RenderStore::new();
    let mut renderers = InFlight::new();
    let tree = folder(5);
    let hash = hash_document_files(Some(&tree)).unwrap();
    store.upsert(ID, hash.wrapping_add(1), RenderType::Pdf);
    assert_eq!(
        render(&store, &mut renderers, "/data", ID, Some(&tree)),
        Ok(RenderStep::Run { hash })
    );
}

#[test]
fn concurrent_requests_start_one_run() {
    let store = RenderStore::new();
    let mut renderers = InFlight::new();
    let tree = folder(5);
    let hash = hash_document_files(Some(&tree)).unwrap();
    let mut runs = 0;
    let mut waits = 0;
    for _ in 0..8 {
        match render(&store, &mut renderers, "/data", ID, Some(&tree)).unwrap() {
            RenderStep::Run { hash: started } => {
                assert_eq!(started, hash);
                runs += 1;
            }
            RenderStep::Wait { hash: awaited } => {
                assert_eq!(awaited, hash);
                waits += 1;
            }
            RenderStep::Cached { .. } => panic!("nothing has been rendered yet"),
        }
    }
    assert_eq!(runs, 1);
    assert_eq!(waits, 7);
}

#[test]
fn waiters_read_what_the_run_has_left() {
    let mut store = RenderStore::new();
    let mut renderers = InFlight::new();
    let tree = folder(5);
    let hash = hash_document_files(Some(&tree)).unwrap();
    render(&store, &mut renderers, "/data", ID, Some(&tree)).unwrap();
    assert_eq!(
        render(&store, &mut renderers, "/data", ID, Some(&tree)),
        Ok(RenderStep::Wait { hash })
    );
    assert_eq!(render_task(&mut store, &mut renderers, ID, hash, Ok(RenderType::Html)), Ok(()));
    assert!(!renderers.contains(ID, hash));
    for _ in 0..3 {
        assert_eq!(
            get_rendered(&store, "/data", ID, hash),
            Ok((ARTIFACT.to_string(), RenderType::Html))
        );
    }
}

#[test]
fn run_in_flight_is_awaited_even_with_a_record() {
    let mut store = RenderStore::new();
    let mut renderers = InFlight::new();
    let tree = folder(5);
    let hash = hash_document_files(Some(&tree)).unwrap();
    renderers.register(ID, hash);
    store.upsert(ID, hash, RenderType::Html);
    assert_eq!(
        render(&store, &mut renderers, "/data", ID, Some(&tree)),
        Ok(RenderStep::Wait { hash })
    );
}

#[test]
fn run_for_another_state_of_the_folder_is_not_awaited() {
    let store = RenderStore::new();
    let mut renderers = InFlight::new();
    let old = folder(5);
    let new = folder(6);
    let old_hash = hash_document_files(Some(&old)).unwrap();
    let new_hash = hash_document_files(Some(&new)).unwrap();
    assert_ne!(old_hash, new_hash);
    render(&store, &mut renderers, "/data", ID, Some(&old)).unwrap();
    assert_eq!(
        render(&store, &mut renderers, "/data", ID, Some(&new)),
        Ok(RenderStep::Run { hash: new_hash })
    );
    assert!(renderers.contains(ID, old_hash));
    assert!(renderers.contains(ID, new_hash));
}

#[test]
fn failed_run_leaves_no_record_and_is_retried() {
    let mut store = RenderStore::new();
    let mut renderers = InFlight::new();
    let tree = folder(5);
    let hash = hash_document_files(Some(&tree)).unwrap();
    render(&store, &mut renderers, "/data", ID, Some(&tree)).unwrap();
    let failure = RenderError::Io("disk full".to_string());
    assert_eq!(
        render_task(&mut store, &mut renderers, ID, hash, Err(failure.clone())),
        Err(failure)
    );
    assert!(renderers.is_empty());
    assert_eq!(store.len(), 0);
    assert_eq!(get_rendered(&store, "/data", ID, hash), Err(RenderError::NotRecorded));
    assert_eq!(
        render(&store, &mut renderers, "/data", ID, Some(&tree)),
        Ok(RenderStep::Run { hash })
    );
}

#[test]
fn in_flight_table_is_a_set() {
    let mut renderers = InFlight::new();
    assert!(renderers.is_empty());
    assert!(renderers.register(ID, 1));
    assert!(!renderers.register(ID, 1));
    assert!(renderers.register(ID, 2));
    assert!(renderers.register(OTHER, 1));
    assert!(renderers.deregister(ID, 1));
    assert!(!renderers.deregister(ID, 1));
    assert!(!renderers.contains(ID, 1));
    assert!(renderers.contains(ID, 2));
    assert!(renderers.contains(OTHER, 1));
    assert!(!renderers.is_empty());
}

#[test]
fn insert_into_cache_replaces_the_record() {
    let mut store = RenderStore::new();
    insert_into_cache(&mut store, ID, 1, RenderType::Plain);
    insert_into_cache(&mut store, ID, 2, RenderType::Pdf);
    assert_eq!(store.lookup(ID, 1), None);
    assert_eq!(store.lookup(ID, 2), Some(RenderType::Pdf));
    assert_eq!(get_from_cache("/data", ID, RenderType::Pdf), (ARTIFACT.to_string(), RenderType::Pdf));
}

#[test]
fn plain_document_renders_to_its_own_bytes() {
    let mut world = World::new();
    let mut store = RenderStore::new();
    let mut renderers = InFlight::new();
    world.files.insert(get_document_file("/data", ID, &None), b"testogus".to_vec());
    let tree = folder(1700000000000);
    let (path, kind) =
        request(&mut world, &mut store, &mut renderers, DocType::Plain, &None, &tree).unwrap();
    assert_eq!(kind, RenderType::Plain);
    assert_eq!(path, ARTIFACT);
    assert_eq!(world.files.get(&path).unwrap(), &b"testogus".to_vec());
    assert_eq!(world.tool_runs, 0);
    assert!(renderers.is_empty());
}

#[test]
fn markdown_document_renders_to_html() {
    let mut world = World::new();
    let mut store = RenderStore::new();
    let mut renderers = InFlight::new();
    let extension = Some("md".to_string());
    world.files.insert(get_document_file("/data", ID, &extension), b"# Title\n\nsome text".to_vec());
    assert!(get_document_file("/data", ID, &extension)
        .starts_with(&get_document_directory("/data", ID)));
    let tree = folder(1700000000000);
    let (path, kind) =
        request(&mut world, &mut store, &mut renderers, DocType::Markdown, &extension, &tree)
            .unwrap();
    assert_eq!(kind, RenderType::Html);
    let artifact = String::from_utf8(world.files.get(&path).unwrap().clone()).unwrap();
    assert!(artifact.starts_with("<!DOCTYPE html>"));
    assert!(artifact.contains("some text"));
    assert_eq!(world.tool_runs, 1);
}

#[test]
fn second_request_is_served_from_the_cache() {
    let mut world = World::new();
    let mut store = RenderStore::new();
    let mut renderers = InFlight::new();
    let extension = Some("md".to_string());
    world.files.insert(get_document_file("/data", ID, &extension), b"text".to_vec());
    let tree = folder(7);
    let first =
        request(&mut world, &mut store, &mut renderers, DocType::Markdown, &extension, &tree);
    let second =
        request(&mut world, &mut store, &mut renderers, DocType::Markdown, &extension, &tree);
    assert_eq!(first, second);
    assert_eq!(world.tool_runs, 1);
    assert!(matches!(
        render(&store, &mut renderers, "/data", ID, Some(&tree)),
        Ok(RenderStep::Cached { .. })
    ));
}

#[test]
fn changed_file_is_rendered_again() {
    let mut world = World::new();
    let mut store = RenderStore::new();
    let mut renderers = InFlight::new();
    let extension = Some("md".to_string());
    let source = get_document_file("/data", ID, &extension);
    world.files.insert(source.clone(), b"first".to_vec());
    let before = folder(7);
    request(&mut world, &mut store, &mut renderers, DocType::Markdown, &extension, &before).unwrap();
    world.files.insert(source, b"second".to_vec());
    let after = folder(8);
    let (path, kind) =
        request(&mut world, &mut store, &mut renderers, DocType::Markdown, &extension, &after)
            .unwrap();
    assert_eq!(kind, RenderType::Html);
    assert_eq!(world.tool_runs, 2);
    assert!(String::from_utf8(world.files.get(&path).unwrap().clone()).unwrap().contains("second"));
    let new_hash = hash_document_files(Some(&after)).unwrap();
    assert_eq!(store.entry(ID).unwrap().hash, new_hash);
    assert_eq!(store.lookup(ID, hash_document_files(Some(&before)).unwrap()), None);
    assert_eq!(store.len(), 1);
}

#[test]
fn tool_failure_is_cached_as_plain_error_text() {
    let mut world = World::new();
    world.tool_fails_with = Some("pandoc: unknown option");
    let mut store = RenderStore::new();
    let mut renderers = InFlight::new();
    let extension = Some("md".to_string());
    world.files.insert(get_document_file("/data", ID, &extension), b"text".to_vec());
    let tree = folder(7);
    let (path, kind) =
        request(&mut world, &mut store, &mut renderers, DocType::Markdown, &extension, &tree)
            .unwrap();
    assert_eq!(kind, RenderType::Plain);
    let artifact = String::from_utf8(world.files.get(&path).unwrap().clone()).unwrap();
    assert!(artifact.contains("pandoc: unknown option"));
    assert_eq!(world.tool_runs, 1);
    let again =
        request(&mut world, &mut store, &mut renderers, DocType::Markdown, &extension, &tree);
    assert_eq!(again, Ok((path, RenderType::Plain)));
    assert_eq!(world.tool_runs, 1);
}

#[test]
fn missing_primary_file_is_an_io_failure_and_not_cached() {
    let mut world = World::new();
    let mut store = RenderStore::new();
    let mut renderers = InFlight::new();
    let tree = folder(7);
    assert_eq!(
        request(&mut world, &mut store, &mut renderers, DocType::Plain, &None, &tree),
        Err(RenderError::Io("copying into cache failed".to_string()))
    );
    assert_eq!(store.len(), 0);
    assert!(renderers.is_empty());
}
