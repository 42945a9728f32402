//! The render store: for each document at most one record of the fingerprint
//! its artifact was rendered from and of the artifact's kind.

use vstd::prelude::*;
use std::collections::HashMap;
use crate::types::RenderType;

verus! {

broadcast use vstd::std_specs::hash::group_hash_axioms;

/// The fingerprint of a document folder: a hash over the modification times
/// of the files below it.
pub type Fingerprint = u64;

/// The identity of a document: the 128 bits of its UUID.
pub type DocumentId = u128;

/// One record of the store: the artifact of `document` has kind
/// `render_type` and was rendered when the folder's fingerprint was `hash`.
#[derive(Debug, Clone, Copy, PartialEq, Eq, Structural)]
pub struct CacheEntry {
    pub document: DocumentId,
    pub hash: Fingerprint,
    pub render_type: RenderType,
}

/// What the store holds for one document: the fingerprint and the kind.
pub type Stamp = (Fingerprint, RenderType);

/// The records of all documents, at most one per document.
pub struct RenderStore {
    rows: HashMap<DocumentId, Stamp>,
}

/// The kind recorded for `document` in `rows`, provided that the record
/// carries exactly the fingerprint `hash`.
pub open spec fn lookup_in(rows: Map<DocumentId, Stamp>, document: DocumentId, hash: Fingerprint)
    -> Option<RenderType> {
    if rows.contains_key(document) && rows[document].0 == hash {
        Some(rows[document].1)
    } else {
        None
    }
}

impl View for RenderStore {
    type V = Map<DocumentId, Stamp>;

    closed spec fn view(&self) -> Map<DocumentId, Stamp> {
        self.rows@
    }
}

impl RenderStore {
    /// A store without records.
    pub fn new() -> (store: RenderStore)
        ensures
            store@ == Map::<DocumentId, Stamp>::empty(),
    {
        RenderStore { rows: HashMap::new() }
    }

    /// The kind of the cached artifact of `document`, if its record carries
    /// the fingerprint `hash`. A record with another fingerprint is stale and
    /// counts as no record.
    pub fn lookup(&self, document: DocumentId, hash: Fingerprint) -> (found: Option<RenderType>)
        ensures
            found == lookup_in(self@, document, hash),
    {
        match self.rows.get(&document) {
            Some(stamp) => {
                if stamp.0 == hash {
                    Some(stamp.1)
                } else {
                    None
                }
            },
            None => None,
        }
    }

    /// The record of `document`, whatever its fingerprint.
    pub fn entry(&self, document: DocumentId) -> (found: Option<CacheEntry>)
        ensures
            match found {
                Some(entry) => self@.contains_key(document) && entry == (CacheEntry {
                    document,
                    hash: self@[document].0,
                    render_type: self@[document].1,
                }),
                None => !self@.contains_key(document),
            },
    {
        match self.rows.get(&document) {
            Some(stamp) => Some(CacheEntry { document, hash: stamp.0, render_type: stamp.1 }),
            None => None,
        }
    }

    /// Records `hash` and `render_type` for `document`, in place of any record
    /// the document had. The records of other documents stay as they are.
    pub fn upsert(&mut self, document: DocumentId, hash: Fingerprint, render_type: RenderType)
        ensures
            final(self)@ == old(self)@.insert(document, (hash, render_type)),
    {
        self.rows.insert(document, (hash, render_type));
    }

    /// Removes the record of `document`, if there is one, and says whether
    /// there was.
    pub fn delete(&mut self, document: DocumentId) -> (removed: bool)
        ensures
            final(self)@ == old(self)@.remove(document),
            removed == old(self)@.contains_key(document),
    {
        self.rows.remove(&document).is_some()
    }

    /// The number of documents with a record.
    pub fn len(&self) -> (count: usize)
        ensures
            count == self@.len(),
            self@.dom().finite(),
    {
        self.rows.len()
    }
}

} // verus!
