//! The render coordinator: what a request for the artifact of a document leads
//! to, and how the outcome of a pipeline run is recorded.
//!
//! The coordinator itself never touches the disk or a process. A caller hands
//! it the document's folder as it found it, and is told either where the
//! valid artifact lies, or to wait for the run that is already under way for
//! this very state of the folder, or to run the pipeline itself. Whoever ran
//! the pipeline reports the outcome to [`render_task`], which records it and
//! takes the run off the table of runs in flight.

use vstd::prelude::*;
use crate::directories::{cache_file, get_cache_file};
use crate::error::RenderError;
use crate::fingerprint::{fingerprint_of, hash_document_files, Entry};
use crate::pipeline::{
    lemma_tool_failure_is_reported, transition, ActionView, EventView, PhaseView, PipelineView,
};
use crate::store::{lookup_in, DocumentId, Fingerprint, RenderStore, Stamp};
use crate::types::RenderType;

verus! {

/// A run in flight is named by the document and the fingerprint it renders.
pub type RenderKey = (DocumentId, Fingerprint);

/// The pipeline runs that have been handed out and not yet reported back: a
/// set of keys, so that a run is on the table once or not at all.
pub struct InFlight {
    keys: Vec<RenderKey>,
}

impl View for InFlight {
    type V = Set<RenderKey>;

    closed spec fn view(&self) -> Set<RenderKey> {
        self.keys@.to_set()
    }
}

/// Appending a key to a list adds it to the set of what the list holds.
proof fn lemma_push_to_set(list: Seq<RenderKey>, key: RenderKey)
    ensures
        list.push(key).to_set() == list.to_set().insert(key),
{
    let longer = list.push(key);
    assert forall|other: RenderKey|
        longer.to_set().contains(other) <==> list.to_set().insert(key).contains(other) by {
        if longer.to_set().contains(other) {
            let k = choose|k: int| 0 <= k < longer.len() && longer[k] == other;
            if k < list.len() {
                assert(list[k] == other);
            }
        }
        if list.to_set().contains(other) {
            let k = choose|k: int| 0 <= k < list.len() && list[k] == other;
            assert(longer[k] == other);
        }
        if other == key {
            assert(longer[list.len() as int] == other);
        }
    }
    assert(longer.to_set() =~= list.to_set().insert(key));
}

/// Taking one occurrence of a key out of a list changes nothing about the
/// other keys that the list holds.
proof fn lemma_remove_to_set(list: Seq<RenderKey>, at: int)
    requires
        0 <= at < list.len(),
    ensures
        list.remove(at).to_set().remove(list[at]) == list.to_set().remove(list[at]),
{
    let shorter = list.remove(at);
    let key = list[at];
    assert forall|other: RenderKey|
        shorter.to_set().remove(key).contains(other) <==> list.to_set().remove(key).contains(
            other,
        ) by {
        if other != key && shorter.to_set().contains(other) {
            let k = choose|k: int| 0 <= k < shorter.len() && shorter[k] == other;
            if k < at {
                assert(list[k] == other);
            } else {
                assert(list[k + 1] == other);
            }
        }
        if other != key && list.to_set().contains(other) {
            let k = choose|k: int| 0 <= k < list.len() && list[k] == other;
            if k < at {
                assert(shorter[k] == other);
            } else {
                assert(shorter[k - 1] == other);
            }
        }
    }
    assert(shorter.to_set().remove(key) =~= list.to_set().remove(key));
}

impl InFlight {
    /// A table without runs.
    pub fn new() -> (table: InFlight)
        ensures
            table@ == Set::<RenderKey>::empty(),
    {
        let table = InFlight { keys: Vec::new() };
        assert(table.keys@.to_set() =~= Set::<RenderKey>::empty());
        table
    }

    /// Where in the list the run for `id` and `hash` stands, if it is listed.
    fn position(&self, id: DocumentId, hash: Fingerprint) -> (at: Option<usize>)
        ensures
            match at {
                Some(i) => i < self.keys@.len() && self.keys@[i as int] == (id, hash),
                None => !self@.contains((id, hash)),
            },
    {
        let mut i: usize = 0;
        while i < self.keys.len()
            invariant
                i <= self.keys@.len(),
                forall|k: int| 0 <= k < i ==> self.keys@[k] != (id, hash),
            decreases self.keys@.len() - i,
        {
            if self.keys[i].0 == id && self.keys[i].1 == hash {
                return Some(i);
            }
            i = i + 1;
        }
        None
    }

    /// Whether a run for `id` at fingerprint `hash` is in flight.
    pub fn contains(&self, id: DocumentId, hash: Fingerprint) -> (listed: bool)
        ensures
            listed == self@.contains((id, hash)),
    {
        self.position(id, hash).is_some()
    }

    /// Whether no run is in flight.
    pub fn is_empty(&self) -> (none: bool)
        ensures
            none == (self@ == Set::<RenderKey>::empty()),
    {
        let none = self.keys.len() == 0;
        proof {
            if none {
                assert(self.keys@.to_set() =~= Set::<RenderKey>::empty());
            } else {
                assert(self.keys@.to_set().contains(self.keys@[0]));
            }
        }
        none
    }

    /// Puts the run for `id` at `hash` on the table, unless it is there, and
    /// says whether it was put there now.
    pub fn register(&mut self, id: DocumentId, hash: Fingerprint) -> (fresh: bool)
        ensures
            final(self)@ == old(self)@.insert((id, hash)),
            fresh == !old(self)@.contains((id, hash)),
    {
        match self.position(id, hash) {
            Some(_) => {
                assert(self@.insert((id, hash)) =~= self@);
                false
            },
            None => {
                proof {
                    lemma_push_to_set(self.keys@, (id, hash));
                }
                self.keys.push((id, hash));
                true
            },
        }
    }

    /// Takes the run for `id` at `hash` off the table, if it is there, and
    /// says whether it was. Other runs stay, those of the same document at
    /// another fingerprint included.
    pub fn deregister(&mut self, id: DocumentId, hash: Fingerprint) -> (listed: bool)
        ensures
            final(self)@ == old(self)@.remove((id, hash)),
            listed == old(self)@.contains((id, hash)),
    {
        let mut listed = false;
        loop
            invariant
                self@.remove((id, hash)) == old(self)@.remove((id, hash)),
                old(self)@.contains((id, hash)) == (listed || self@.contains((id, hash))),
            ensures
                !self@.contains((id, hash)),
            decreases self.keys@.len(),
        {
            match self.position(id, hash) {
                None => {
                    break ;
                },
                Some(at) => {
                    proof {
                        lemma_remove_to_set(self.keys@, at as int);
                    }
                    self.keys.remove(at);
                    listed = true;
                },
            }
        }
        assert(self@.remove((id, hash)) =~= self@);
        listed
    }
}

/// What a request for the artifact of a document comes to, given the
/// fingerprint of the document's folder.
pub enum Decision {
    /// The store holds a record with this fingerprint: the artifact is valid.
    Cached(RenderType),
    /// A run for this fingerprint is in flight: its outcome is to be awaited.
    Wait,
    /// Neither: the pipeline has to run.
    Run,
}

/// The decision for document `id` at fingerprint `hash`. A run in flight is
/// awaited whatever the store holds; a run of the same document at another
/// fingerprint, and a record with another fingerprint, count for nothing.
pub open spec fn decide(
    store: Map<DocumentId, Stamp>,
    in_flight: Set<RenderKey>,
    id: DocumentId,
    hash: Fingerprint,
) -> Decision {
    if in_flight.contains((id, hash)) {
        Decision::Wait
    } else {
        match lookup_in(store, id, hash) {
            Some(render_type) => Decision::Cached(render_type),
            None => Decision::Run,
        }
    }
}

/// The table of runs after a request for document `id` at fingerprint
/// `hash`: a request that has to run the pipeline puts its run on the table,
/// any other request leaves the table alone.
pub open spec fn after_request(
    store: Map<DocumentId, Stamp>,
    in_flight: Set<RenderKey>,
    id: DocumentId,
    hash: Fingerprint,
) -> Set<RenderKey> {
    match decide(store, in_flight, id, hash) {
        Decision::Run => in_flight.insert((id, hash)),
        _ => in_flight,
    }
}

/// What the caller of [`render`] has to do next.
#[derive(Debug, Clone, PartialEq, Eq)]
pub enum RenderStep {
    /// Nothing: the artifact at `path` is valid and has kind `render_type`.
    Cached { path: String, render_type: RenderType },
    /// Wait until the run for `hash` has been reported to [`render_task`],
    /// then read the result with [`get_rendered`].
    Wait { hash: Fingerprint },
    /// Run the pipeline for `hash`, report to [`render_task`], then read the
    /// result with [`get_rendered`]. The run is on the table from now on.
    Run { hash: Fingerprint },
}

/// The location of the artifact of document `id`, paired with its kind.
pub fn get_from_cache(data_dir: &str, id: DocumentId, render_type: RenderType) -> (found: (
    String,
    RenderType,
))
    ensures
        found.0@ == cache_file(data_dir@, id),
        found.1 == render_type,
{
    (get_cache_file(data_dir, id), render_type)
}

/// Handles a request for the artifact of document `id`, whose folder is
/// `folder` (`None` where the document has none).
///
/// Fails with `DocumentNotFound` without a folder. Otherwise the folder's
/// fingerprint decides, as [`decide`] says. The table of runs changes only
/// when the pipeline has to run: the new run is then on it, so that no
/// second request starts the same run.
pub fn render(
    store: &RenderStore,
    renderers: &mut InFlight,
    data_dir: &str,
    id: DocumentId,
    folder: Option<&Entry>,
) -> (step: Result<RenderStep, RenderError>)
    ensures
        match folder {
            None => step == Err::<RenderStep, RenderError>(RenderError::DocumentNotFound)
                && final(renderers)@ == old(renderers)@,
            Some(root) => {
                let hash = fingerprint_of(*root);
                &&& final(renderers)@ == after_request(store@, old(renderers)@, id, hash)
                &&& match decide(store@, old(renderers)@, id, hash) {
                    Decision::Cached(render_type) => {
                        &&& step matches Ok(RenderStep::Cached { path, render_type: found })
                        &&& path@ == cache_file(data_dir@, id)
                        &&& found == render_type
                    },
                    Decision::Wait => {
                        &&& step matches Ok(RenderStep::Wait { hash: awaited })
                        &&& awaited == hash
                    },
                    Decision::Run => {
                        &&& step matches Ok(RenderStep::Run { hash: started })
                        &&& started == hash
                    },
                }
            },
        },
{
    let hash = match hash_document_files(folder) {
        Ok(hash) => hash,
        Err(_) => {
            return Err(RenderError::DocumentNotFound);
        },
    };
    if renderers.contains(id, hash) {
        return Ok(RenderStep::Wait { hash });
    }
    match store.lookup(id, hash) {
        Some(render_type) => {
            let found = get_from_cache(data_dir, id, render_type);
            Ok(RenderStep::Cached { path: found.0, render_type: found.1 })
        },
        None => {
            renderers.register(id, hash);
            Ok(RenderStep::Run { hash })
        },
    }
}

/// The result of a render of document `id` that has ended: the location and
/// kind of the artifact, read from the record with fingerprint `hash`. Where
/// the store holds no such record the run has failed without leaving an
/// artifact, and the result is `NotRecorded`.
pub fn get_rendered(store: &RenderStore, data_dir: &str, id: DocumentId, hash: Fingerprint) -> (found:
    Result<(String, RenderType), RenderError>)
    ensures
        match lookup_in(store@, id, hash) {
            Some(render_type) => {
                &&& found matches Ok(pair)
                &&& pair.0@ == cache_file(data_dir@, id)
                &&& pair.1 == render_type
            },
            None => found == Err::<(String, RenderType), RenderError>(RenderError::NotRecorded),
        },
{
    match store.lookup(id, hash) {
        Some(render_type) => Ok(get_from_cache(data_dir, id, render_type)),
        None => Err(RenderError::NotRecorded),
    }
}

/// Records that the artifact of `id` has kind `render_type` and was rendered
/// at fingerprint `hash`, in place of any earlier record of the document.
pub fn insert_into_cache(
    store: &mut RenderStore,
    id: DocumentId,
    hash: Fingerprint,
    render_type: RenderType,
)
    ensures
        final(store)@ == old(store)@.insert(id, (hash, render_type)),
{
    store.upsert(id, hash, render_type);
}

/// The store after the run for `id` at `hash` has ended with `outcome`: a
/// kind is recorded with the fingerprint, a failure leaves the store alone.
pub open spec fn recorded(
    store: Map<DocumentId, Stamp>,
    id: DocumentId,
    hash: Fingerprint,
    outcome: Result<RenderType, RenderError>,
) -> Map<DocumentId, Stamp> {
    match outcome {
        Ok(render_type) => store.insert(id, (hash, render_type)),
        Err(_) => store,
    }
}

/// Takes the outcome of the pipeline run for `id` at `hash`: records the kind
/// of the artifact that the run has left, if it left one, and takes the run
/// off the table either way. A failure is handed back.
pub fn render_task(
    store: &mut RenderStore,
    renderers: &mut InFlight,
    id: DocumentId,
    hash: Fingerprint,
    outcome: Result<RenderType, RenderError>,
) -> (result: Result<(), RenderError>)
    ensures
        final(store)@ == recorded(old(store)@, id, hash, outcome),
        final(renderers)@ == old(renderers)@.remove((id, hash)),
        match outcome {
            Ok(_) => result == Ok::<(), RenderError>(()),
            Err(error) => result == Err::<(), RenderError>(error),
        },
{
    let result = match outcome {
        Ok(render_type) => {
            insert_into_cache(store, id, hash, render_type);
            Ok(())
        },
        Err(error) => Err(error),
    };
    renderers.deregister(id, hash);
    result
}

/// How many of `requests` successive requests for document `id` at
/// fingerprint `hash` are told to run the pipeline, when no run is reported
/// back in between.
pub open spec fn runs_started(
    store: Map<DocumentId, Stamp>,
    in_flight: Set<RenderKey>,
    id: DocumentId,
    hash: Fingerprint,
    requests: nat,
) -> nat
    decreases requests,
{
    if requests == 0 {
        0
    } else {
        let rest = runs_started(
            store,
            after_request(store, in_flight, id, hash),
            id,
            hash,
            (requests - 1) as nat,
        );
        match decide(store, in_flight, id, hash) {
            Decision::Run => rest + 1,
            _ => rest,
        }
    }
}

/// While a run is in flight, every request for its document at its
/// fingerprint waits, however many there are: none of them starts a run.
pub proof fn lemma_requests_wait_for_run(
    store: Map<DocumentId, Stamp>,
    in_flight: Set<RenderKey>,
    id: DocumentId,
    hash: Fingerprint,
    requests: nat,
)
    requires
        in_flight.contains((id, hash)),
    ensures
        runs_started(store, in_flight, id, hash, requests) == 0,
    decreases requests,
{
    if requests > 0 {
        lemma_requests_wait_for_run(store, in_flight, id, hash, (requests - 1) as nat);
    }
}

/// Single flight: of any number of requests for one document in one state
/// of its folder that arrive before a run has been reported back, exactly one
/// starts a run where the artifact is neither valid nor being made, and none
/// does otherwise.
pub proof fn lemma_single_flight(
    store: Map<DocumentId, Stamp>,
    in_flight: Set<RenderKey>,
    id: DocumentId,
    hash: Fingerprint,
    requests: nat,
)
    requires
        requests > 0,
    ensures
        runs_started(store, in_flight, id, hash, requests) == if decide(
            store,
            in_flight,
            id,
            hash,
        ) is Run {
            1nat
        } else {
            0nat
        },
    decreases requests,
{
    let rest = (requests - 1) as nat;
    match decide(store, in_flight, id, hash) {
        Decision::Run => {
            lemma_requests_wait_for_run(store, in_flight.insert((id, hash)), id, hash, rest);
        },
        Decision::Wait => {
            lemma_requests_wait_for_run(store, in_flight, id, hash, rest);
        },
        Decision::Cached(_) => {
            if rest > 0 {
                lemma_single_flight(store, in_flight, id, hash, rest);
            }
        },
    }
}

/// Whoever waited for a run, and whoever ran it, reads the same result once
/// the run has been reported: the kind that the run has left with its
/// fingerprint, or nothing where it left none and the store held no record with
/// that fingerprint before.
pub proof fn lemma_waiters_read_outcome(
    store: Map<DocumentId, Stamp>,
    id: DocumentId,
    hash: Fingerprint,
    outcome: Result<RenderType, RenderError>,
)
    ensures
        lookup_in(recorded(store, id, hash, outcome), id, hash) == match outcome {
            Ok(render_type) => Some(render_type),
            Err(_) => lookup_in(store, id, hash),
        },
{
}

/// Cache hit: once a run has left an artifact of kind `render_type` for
/// document `id` at fingerprint `hash`, a request in the same state of the
/// folder finds it, starts no run and changes nothing, so that every further
/// request finds it too.
pub proof fn lemma_rendered_is_cached(
    store: Map<DocumentId, Stamp>,
    in_flight: Set<RenderKey>,
    id: DocumentId,
    hash: Fingerprint,
    render_type: RenderType,
    requests: nat,
)
    ensures
        ({
            let then_store = recorded(store, id, hash, Ok(render_type));
            let then_in_flight = in_flight.remove((id, hash));
            &&& decide(then_store, then_in_flight, id, hash) == Decision::Cached(render_type)
            &&& after_request(then_store, then_in_flight, id, hash) == then_in_flight
            &&& runs_started(then_store, then_in_flight, id, hash, requests) == 0
        }),
    decreases requests,
{
    if requests > 0 {
        let then_store = recorded(store, id, hash, Ok(render_type));
        let then_in_flight = in_flight.remove((id, hash));
        lemma_rendered_is_cached(store, in_flight, id, hash, render_type, (requests - 1) as nat);
        assert(recorded(then_store, id, hash, Ok(render_type)) == then_store);
        assert(then_in_flight.remove((id, hash)) == then_in_flight);
    }
}

/// Invalidation: a record made at one fingerprint is worth nothing at another.
/// When the folder has changed so that its fingerprint is `changed`, a request
/// runs the pipeline again unless that run is already in flight, and the
/// record that the new run leaves carries the new fingerprint in place of the
/// old one.
pub proof fn lemma_changed_folder_runs_again(
    store: Map<DocumentId, Stamp>,
    in_flight: Set<RenderKey>,
    id: DocumentId,
    hash: Fingerprint,
    render_type: RenderType,
    changed: Fingerprint,
    rendered_again: RenderType,
)
    requires
        changed != hash,
        !in_flight.contains((id, changed)),
    ensures
        ({
            let then_store = recorded(store, id, hash, Ok(render_type));
            let last_store = recorded(then_store, id, changed, Ok(rendered_again));
            &&& decide(then_store, in_flight, id, changed) == Decision::Run
            &&& last_store[id] == (changed, rendered_again)
            &&& lookup_in(last_store, id, hash) == None::<RenderType>
            &&& lookup_in(last_store, id, changed) == Some(rendered_again)
        }),
{
}

/// A run that failed without leaving an artifact leaves no record either, so
/// that the next request in the same state of the folder runs the pipeline
/// again.
pub proof fn lemma_failed_run_is_retried(
    store: Map<DocumentId, Stamp>,
    in_flight: Set<RenderKey>,
    id: DocumentId,
    hash: Fingerprint,
    error: RenderError,
)
    requires
        lookup_in(store, id, hash) is None,
    ensures
        decide(
            recorded(store, id, hash, Err(error)),
            in_flight.remove((id, hash)),
            id,
            hash,
        ) == Decision::Run,
{
}

/// The records of other documents, and the runs of other documents and other
/// fingerprints, are not touched by a request or by a report.
pub proof fn lemma_others_untouched(
    store: Map<DocumentId, Stamp>,
    in_flight: Set<RenderKey>,
    id: DocumentId,
    hash: Fingerprint,
    outcome: Result<RenderType, RenderError>,
    other: RenderKey,
)
    requires
        other != (id, hash),
    ensures
        after_request(store, in_flight, id, hash).contains(other) == in_flight.contains(other),
        in_flight.remove((id, hash)).contains(other) == in_flight.contains(other),
        other.0 != id ==> lookup_in(recorded(store, id, hash, outcome), other.0, other.1)
            == lookup_in(store, other.0, other.1),
{
}

/// Failure caching, from the tool to the next request: when a tool ends with
/// a status other than zero, the run ends with a plain artifact that holds
/// what the tool wrote to standard error; once that outcome is recorded,
/// further requests in the same state of the folder find the plain artifact
/// and start no run, so that the tool is not run again.
pub proof fn lemma_tool_failure_is_cached(
    run: PipelineView,
    tool: Seq<char>,
    code: Option<i32>,
    stdout: Seq<char>,
    stderr: Seq<char>,
    release: EventView,
    store: Map<DocumentId, Stamp>,
    in_flight: Set<RenderKey>,
    id: DocumentId,
    hash: Fingerprint,
    requests: nat,
)
    requires
        run.phase matches PhaseView::Performing { tool: Some(command), .. } && command == tool,
    ensures
        ({
            let failed = EventView::Exited { success: false, code, stdout, stderr };
            let (next, action) = transition(run, failed);
            let (degrading, write) = if run.scratch {
                transition(next, release)
            } else {
                (next, action)
            };
            let (last, report) = transition(degrading, EventView::Done);
            let then_store = recorded(store, id, hash, Ok(RenderType::Plain));
            let then_in_flight = in_flight.remove((id, hash));
            &&& write matches ActionView::WriteArtifact { content, .. }
            &&& content.len() >= stderr.len()
            &&& content.subrange(content.len() - stderr.len(), content.len() as int) == stderr
            &&& report == ActionView::Finish(Ok(RenderType::Plain))
            &&& decide(then_store, then_in_flight, id, hash) == Decision::Cached(RenderType::Plain)
            &&& runs_started(then_store, then_in_flight, id, hash, requests) == 0
        }),
{
    lemma_tool_failure_is_reported(run, tool, code, stdout, stderr, release);
    lemma_rendered_is_cached(store, in_flight, id, hash, RenderType::Plain, requests);
}

} // verus!
