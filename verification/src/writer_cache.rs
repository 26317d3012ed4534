//! The registry of writer handles, keyed by index path.
//!
//! A path is looked up by its key, so that paths which differ only in
//! trailing separators meet in one entry, and a key holds at most one
//! handle.

use crate::error::{Operation, SearchError};
use crate::path::{is_normal, normalize_path, normalized};
use crate::string_map::StringMap;
use crate::writer::{HandleView, WriterHandle};
use vstd::prelude::*;

verus! {

/// The registry of writer handles.
pub struct WriterCache {
    handles: StringMap<WriterHandle>,
}

impl View for WriterCache {
    type V = Map<Seq<char>, HandleView>;

    closed spec fn view(&self) -> Map<Seq<char>, HandleView> {
        self.handles@.map_values(|h: WriterHandle| h@)
    }
}

impl WriterCache {
    /// The invariant: every entry sits under a key, no key occurs twice,
    /// and every handle is well-formed.
    pub closed spec fn wf(&self) -> bool {
        &&& self.handles.wf()
        &&& forall|k: Seq<char>| #[trigger]
            self.handles@.contains_key(k) ==> is_normal(k) && self.handles@[k].wf()
    }

    /// The number of handles registered for `path`.
    pub closed spec fn registered(&self, path: Seq<char>) -> nat {
        self.handles.registrations(normalized(path))
    }

    /// At most one writer handle is registered for a path, and one exactly
    /// when the view maps the path's key.
    pub proof fn lemma_at_most_one_writer(&self, path: Seq<char>)
        requires
            self.wf(),
        ensures
            self.registered(path) <= 1,
            self.registered(path) == 1 <==> self@.contains_key(normalized(path)),
    {
        self.handles.lemma_at_most_one(normalized(path));
    }

    /// An empty registry.
    pub fn new() -> (cache: Self)
        ensures
            cache.wf(),
            cache@ == Map::<Seq<char>, HandleView>::empty(),
    {
        let cache = WriterCache { handles: StringMap::new() };
        assert(cache@ =~= Map::<Seq<char>, HandleView>::empty());
        cache
    }

    /// The number of handles registered.
    pub fn len(&self) -> (n: usize)
        requires
            self.wf(),
        ensures
            self@.dom().finite(),
            n == self@.dom().len(),
    {
        assert(self@.dom() =~= self.handles@.dom());
        self.handles.len()
    }

    /// Whether a handle is registered for `path`.
    pub fn contains(&self, path: &str) -> (held: bool)
        requires
            self.wf(),
        ensures
            held == self@.contains_key(normalized(path@)),
    {
        let key = normalize_path(path);
        self.handles.contains(key.as_str())
    }

    /// Registers `handle` for `path`, in place of the handle registered
    /// there, which is returned for the caller to drain.
    pub fn set(&mut self, path: &str, handle: WriterHandle) -> (previous: Option<WriterHandle>)
        requires
            old(self).wf(),
            handle.wf(),
        ensures
            final(self).wf(),
            final(self)@ == old(self)@.insert(normalized(path@), handle@),
            match previous {
                Some(h) => old(self)@.contains_key(normalized(path@)) && h@ == old(
                    self,
                )@[normalized(path@)] && h.wf(),
                None => !old(self)@.contains_key(normalized(path@)),
            },
    {
        let key = normalize_path(path);
        let ghost before = *self;
        let previous = self.handles.insert(key, handle);
        proof {
            assert(self@ =~= before@.insert(normalized(path@), handle@));
        }
        previous
    }

    /// The handle registered for `path`.
    pub fn get(&self, path: &str) -> (result: Result<&WriterHandle, SearchError>)
        requires
            self.wf(),
        ensures
            match result {
                Ok(handle) => self@.contains_key(normalized(path@)) && handle@
                    == self@[normalized(path@)] && handle.wf(),
                Err(error) => !self@.contains_key(normalized(path@)) && error == (
                SearchError::NotFound { operation: Operation::Lookup }),
            },
    {
        let key = normalize_path(path);
        match self.handles.get(key.as_str()) {
            Some(handle) => Ok(handle),
            None => Err(SearchError::NotFound { operation: Operation::Lookup }),
        }
    }

    /// The handle registered for `path`, to be worked on in place.
    pub(crate) fn get_mut(&mut self, path: &str) -> (found: Option<&mut WriterHandle>)
        requires
            old(self).wf(),
        ensures
            match found {
                Some(handle) => {
                    &&& old(self)@.contains_key(normalized(path@))
                    &&& handle@ == old(self)@[normalized(path@)]
                    &&& handle.wf()
                    &&& final(self)@ == old(self)@.insert(normalized(path@), final(handle)@)
                    &&& final(handle).wf() ==> final(self).wf()
                },
                None => !old(self)@.contains_key(normalized(path@)) && final(self)@ == old(self)@
                    && final(self).wf(),
            },
    {
        let key = normalize_path(path);
        let ghost before = *self;
        let ghost after = *final(self);
        match self.handles.get_mut(key.as_str()) {
            Some(handle) => {
                proof {
                    assert(after@ =~= before@.insert(normalized(path@), final(handle)@));
                    assert forall|k: Seq<char>|
                        final(handle).wf() && #[trigger] after.handles@.contains_key(
                            k,
                        ) implies is_normal(k) && after.handles@[k].wf() by {
                        if k != normalized(path@) {
                            assert(before.handles@.contains_key(k));
                        }
                    }
                }
                Some(handle)
            },
            None => {
                proof {
                    assert(after@ =~= before@);
                    assert forall|k: Seq<char>| #[trigger]
                        after.handles@.contains_key(k) implies is_normal(k)
                        && after.handles@[k].wf() by {
                        assert(before.handles@.contains_key(k));
                    }
                }
                None
            },
        }
    }

    /// Takes the handle registered for `path` out of the registry.
    pub fn remove(&mut self, path: &str) -> (result: Result<WriterHandle, SearchError>)
        requires
            old(self).wf(),
        ensures
            final(self).wf(),
            final(self)@ == old(self)@.remove(normalized(path@)),
            match result {
                Ok(handle) => old(self)@.contains_key(normalized(path@)) && handle@ == old(
                    self,
                )@[normalized(path@)] && handle.wf(),
                Err(error) => !old(self)@.contains_key(normalized(path@)) && error == (
                SearchError::NotFound { operation: Operation::Remove }),
            },
    {
        let key = normalize_path(path);
        let ghost before = *self;
        let removed = self.handles.remove(key.as_str());
        proof {
            assert(self@ =~= before@.remove(normalized(path@)));
        }
        match removed {
            Some(handle) => Ok(handle),
            None => Err(SearchError::NotFound { operation: Operation::Remove }),
        }
    }
}

} // verus!
