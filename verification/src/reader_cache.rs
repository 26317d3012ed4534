//! The registry of index readers, keyed by index path.
//!
//! The write path needs two things of it: to drop the reader of an index
//! that is created anew, and to reload the reader of an index whose
//! deletions were committed.

use crate::engine::reader_reload;
use crate::error::{Operation, SearchError};
use crate::path::{is_normal, normalize_path, normalized};
use crate::string_map::StringMap;
use tantivy::{IndexReader, TantivyError};
use vstd::prelude::*;

verus! {

/// The registry of index readers.
pub struct ReaderCache {
    readers: StringMap<IndexReader>,
}

impl View for ReaderCache {
    /// The reader of each key that holds one.
    type V = Map<Seq<char>, IndexReader>;

    closed spec fn view(&self) -> Map<Seq<char>, IndexReader> {
        self.readers@
    }
}

/// What a reload after a committed deletion amounts to. Without a reader
/// for the path there is nothing to reload, which counts as success; a
/// reader that fails to reload fails the operation.
pub open spec fn reload_outcome(attempt: Option<Result<(), TantivyError>>) -> Result<
    bool,
    SearchError,
> {
    match attempt {
        None => Ok(true),
        Some(Ok(_)) => Ok(true),
        Some(Err(cause)) => Err(SearchError::Engine { operation: Operation::ReloadReader, cause }),
    }
}

/// Turns the attempt to reload a reader into the result of the reload.
pub fn settle_reload(attempt: Option<Result<(), TantivyError>>) -> (outcome: Result<
    bool,
    SearchError,
>)
    ensures
        outcome == reload_outcome(attempt),
{
    match attempt {
        None => Ok(true),
        Some(Ok(_)) => Ok(true),
        Some(Err(cause)) => Err(SearchError::Engine { operation: Operation::ReloadReader, cause }),
    }
}

impl ReaderCache {
    /// The invariant: every reader sits under a key, and no key occurs
    /// twice.
    pub closed spec fn wf(&self) -> bool {
        &&& self.readers.wf()
        &&& forall|k: Seq<char>| #[trigger] self.readers@.contains_key(k) ==> is_normal(k)
    }

    /// The number of readers registered for `path`.
    pub closed spec fn registered(&self, path: Seq<char>) -> nat {
        self.readers.registrations(normalized(path))
    }

    /// At most one reader is registered for a path, and one exactly when
    /// the view holds the path's key.
    pub proof fn lemma_at_most_one_reader(&self, path: Seq<char>)
        requires
            self.wf(),
        ensures
            self.registered(path) <= 1,
            self.registered(path) == 1 <==> self@.contains_key(normalized(path)),
    {
        self.readers.lemma_at_most_one(normalized(path));
    }

    /// An empty registry.
    pub fn new() -> (cache: Self)
        ensures
            cache.wf(),
            cache@ == Map::<Seq<char>, IndexReader>::empty(),
    {
        ReaderCache { readers: StringMap::new() }
    }

    /// The number of readers registered.
    pub fn len(&self) -> (n: usize)
        requires
            self.wf(),
        ensures
            self@.dom().finite(),
            n == self@.dom().len(),
    {
        self.readers.len()
    }

    /// Whether a reader is registered for `path`.
    pub fn contains(&self, path: &str) -> (held: bool)
        requires
            self.wf(),
        ensures
            held == self@.contains_key(normalized(path@)),
    {
        let key = normalize_path(path);
        self.readers.contains(key.as_str())
    }

    /// Registers `reader` for `path`, in place of the reader registered
    /// there, which is returned.
    pub fn set(&mut self, path: &str, reader: IndexReader) -> (previous: Option<IndexReader>)
        requires
            old(self).wf(),
        ensures
            final(self).wf(),
            final(self)@ == old(self)@.insert(normalized(path@), reader),
            match previous {
                Some(r) => old(self)@.contains_key(normalized(path@)) && r == old(
                    self,
                )@[normalized(path@)],
                None => !old(self)@.contains_key(normalized(path@)),
            },
    {
        let key = normalize_path(path);
        self.readers.insert(key, reader)
    }

    /// The reader registered for `path`.
    pub fn get(&self, path: &str) -> (result: Result<&IndexReader, SearchError>)
        requires
            self.wf(),
        ensures
            match result {
                Ok(reader) => self@.contains_key(normalized(path@)) && *reader
                    == self@[normalized(path@)],
                Err(error) => !self@.contains_key(normalized(path@)) && error == (
                SearchError::NotFound { operation: Operation::Lookup }),
            },
    {
        let key = normalize_path(path);
        match self.readers.get(key.as_str()) {
            Some(reader) => Ok(reader),
            None => Err(SearchError::NotFound { operation: Operation::Lookup }),
        }
    }

    /// Takes the reader registered for `path` out of the registry.
    pub fn remove(&mut self, path: &str) -> (result: Result<IndexReader, SearchError>)
        requires
            old(self).wf(),
        ensures
            final(self).wf(),
            final(self)@ == old(self)@.remove(normalized(path@)),
            match result {
                Ok(reader) => old(self)@.contains_key(normalized(path@)) && reader == old(
                    self,
                )@[normalized(path@)],
                Err(error) => !old(self)@.contains_key(normalized(path@)) && error == (
                SearchError::NotFound { operation: Operation::Remove }),
            },
    {
        let key = normalize_path(path);
        match self.readers.remove(key.as_str()) {
            Some(reader) => Ok(reader),
            None => Err(SearchError::NotFound { operation: Operation::Remove }),
        }
    }

    /// Has the reader registered for `path` load the last commit, if there
    /// is such a reader. `None` says that there is none; otherwise the
    /// engine decides.
    pub fn reload(&self, path: &str) -> (attempt: Option<Result<(), TantivyError>>)
        requires
            self.wf(),
        ensures
            attempt is Some <==> self@.contains_key(normalized(path@)),
    {
        match self.get(path) {
            Ok(reader) => Some(reader_reload(reader)),
            Err(_) => None,
        }
    }
}

} // verus!
