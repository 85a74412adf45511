//! A table of open indexes behind plain integer handles, so that callers never
//! hold a reference into an index.
use vstd::prelude::*;
use crate::model::{FtError, Mutation};
use crate::schema::{names_of, valid_field_names};
use crate::ranking::IdScore;
use crate::engine::{
    add_outcome, commit_outcome, delete_outcome, ft_add_document, ft_commit, ft_delete_document,
    ft_query, new_ftindex, query_outcome, FTIndex, QueryOptions,
};

verus! {

/// The open indexes; a handle is the position of its slot.
pub struct IndexRegistry {
    slots: Vec<Option<FTIndex>>,
}

impl IndexRegistry {
    /// The handles of the open indexes.
    pub closed spec fn handles(&self) -> Set<usize> {
        Set::new(|h: usize| h < self.slots@.len() && self.slots@[h as int] is Some)
    }

    /// The index that handle `h` names.
    pub closed spec fn index_of(&self, h: usize) -> FTIndex {
        self.slots@[h as int]->0
    }

    pub closed spec fn wf(&self) -> bool {
        forall|i: int| 0 <= i < self.slots@.len() && #[trigger] self.slots@[i] is Some ==> self.slots@[i]->0.wf()
    }

    /// `self` and `other` hold the same indexes under all handles but `h`.
    pub open spec fn same_except(&self, other: &IndexRegistry, h: usize) -> bool {
        &&& self.handles() == other.handles()
        &&& forall|g: usize| #[trigger] self.handles().contains(g) && g != h ==> self.index_of(g) == other.index_of(g)
    }

    /// An empty registry.
    pub fn new() -> (r: IndexRegistry)
        ensures
            r.wf(),
            r.handles() == Set::<usize>::empty(),
    {
        let r = IndexRegistry { slots: Vec::new() };
        assert(r.handles() =~= Set::<usize>::empty());
        r
    }

    fn take(&mut self, handle: usize) -> (r: Option<FTIndex>)
        requires
            old(self).wf(),
        ensures
            final(self).slots@.len() == old(self).slots@.len(),
            !old(self).handles().contains(handle) ==> r is None && final(self).slots@ == old(self).slots@,
            old(self).handles().contains(handle) ==> r == Some(old(self).index_of(handle))
                && r->0.wf() && final(self).slots@ == old(self).slots@.update(handle as int, None),
    {
        if handle >= self.slots.len() {
            return None;
        }
        let mut slot: Option<FTIndex> = None;
        self.slots.set_and_swap(handle, &mut slot);
        if slot.is_none() {
            assert(self.slots@ =~= old(self).slots@);
        }
        slot
    }

    /// Creates or opens the index at `path` and gives it a new handle.
    pub fn create_index(&mut self, path: &String, text_field_names: &Vec<String>) -> (r: Result<usize, FtError>)
        requires
            old(self).wf(),
            text_field_names.len() < u32::MAX - 1,
        ensures
            final(self).wf(),
            !valid_field_names(names_of(text_field_names@)) ==> r == Err::<usize, FtError>(FtError::SchemaMismatch),
            r is Err ==> (r->Err_0 == FtError::SchemaMismatch || r->Err_0 == FtError::IOError)
                && final(self).handles() == old(self).handles()
                && forall|g: usize| #[trigger] old(self).handles().contains(g) ==> final(self).index_of(g) == old(self).index_of(g),
            r is Ok ==> ({
                let h = r->Ok_0;
                &&& !old(self).handles().contains(h)
                &&& final(self).handles() == old(self).handles().insert(h)
                &&& forall|g: usize| #[trigger] old(self).handles().contains(g) ==> final(self).index_of(g) == old(self).index_of(g)
                &&& final(self).index_of(h).text_fields() == names_of(text_field_names@)
                &&& final(self).index_of(h).pending() == Seq::<Mutation>::empty()
                &&& final(self).index_of(h).committed() == Seq::<Mutation>::empty()
            }),
    {
        let ft = new_ftindex(path, text_field_names)?;
        if self.slots.len() == usize::MAX {
            return Err(FtError::IOError);
        }
        let h = self.slots.len();
        self.slots.push(Some(*ft));
        assert(self.handles() =~= old(self).handles().insert(h));
        Ok(h)
    }

    /// Closes the index behind `handle`; false when there is none.
    pub fn close(&mut self, handle: usize) -> (r: bool)
        requires
            old(self).wf(),
        ensures
            final(self).wf(),
            r == old(self).handles().contains(handle),
            final(self).handles() == old(self).handles().remove(handle),
            forall|g: usize| #[trigger] final(self).handles().contains(g) ==> final(self).index_of(g) == old(self).index_of(g),
    {
        let slot = self.take(handle);
        assert(self.handles() =~= old(self).handles().remove(handle));
        slot.is_some()
    }

    /// `ft_add_document` on the index behind `handle`.
    pub fn add_document(&mut self, handle: usize, id: i64, fields: &Vec<String>, values: &Vec<String>) -> (r: Result<(), FtError>)
        requires
            old(self).wf(),
            fields.len() == values.len(),
        ensures
            final(self).wf(),
            final(self).same_except(&*old(self), handle),
            !old(self).handles().contains(handle) ==> r == Err::<(), FtError>(FtError::UnknownHandle),
            old(self).handles().contains(handle) ==> add_outcome(old(self).index_of(handle), final(self).index_of(handle), id, names_of(fields@), names_of(values@), r),
    {
        match self.take(handle) {
            None => {
                assert(self.handles() =~= old(self).handles());
                Err(FtError::UnknownHandle)
            },
            Some(mut ft) => {
                let r = ft_add_document(&mut ft, id, fields, values);
                self.slots.set(handle, Some(ft));
                assert(self.handles() =~= old(self).handles());
                r
            },
        }
    }

    /// `ft_delete_document` on the index behind `handle`.
    pub fn delete_document(&mut self, handle: usize, id: i64) -> (r: Result<(), FtError>)
        requires
            old(self).wf(),
        ensures
            final(self).wf(),
            final(self).same_except(&*old(self), handle),
            !old(self).handles().contains(handle) ==> r == Err::<(), FtError>(FtError::UnknownHandle),
            old(self).handles().contains(handle) ==> delete_outcome(old(self).index_of(handle), final(self).index_of(handle), id, r),
    {
        match self.take(handle) {
            None => {
                assert(self.handles() =~= old(self).handles());
                Err(FtError::UnknownHandle)
            },
            Some(mut ft) => {
                let r = ft_delete_document(&mut ft, id);
                self.slots.set(handle, Some(ft));
                assert(self.handles() =~= old(self).handles());
                r
            },
        }
    }

    /// `ft_commit` on the index behind `handle`. After a `CommitError` the
    /// handle is closed, since the index must be opened afresh.
    pub fn commit(&mut self, handle: usize) -> (r: Result<(), FtError>)
        requires
            old(self).wf(),
        ensures
            final(self).wf(),
            !old(self).handles().contains(handle) ==> r == Err::<(), FtError>(FtError::UnknownHandle),
            r != Err::<(), FtError>(FtError::CommitError) ==> final(self).same_except(&*old(self), handle),
            old(self).handles().contains(handle) && r != Err::<(), FtError>(FtError::CommitError)
                ==> commit_outcome(old(self).index_of(handle), final(self).index_of(handle), r),
            r == Err::<(), FtError>(FtError::CommitError) ==> final(self).handles() == old(self).handles().remove(handle)
                && forall|g: usize| #[trigger] final(self).handles().contains(g) ==> final(self).index_of(g) == old(self).index_of(g),
    {
        match self.take(handle) {
            None => {
                assert(self.handles() =~= old(self).handles());
                Err(FtError::UnknownHandle)
            },
            Some(mut ft) => {
                let r = ft_commit(&mut ft);
                if matches!(r, Err(FtError::CommitError)) {
                    assert(self.handles() =~= old(self).handles().remove(handle));
                    return r;
                }
                self.slots.set(handle, Some(ft));
                assert(self.handles() =~= old(self).handles());
                r
            },
        }
    }

    /// `ft_query` on the index behind `handle`.
    pub fn query(&mut self, handle: usize, query: &String, top_n: usize) -> (r: Result<Vec<IdScore>, FtError>)
        requires
            old(self).wf(),
            top_n >= 1,
        ensures
            final(self).wf(),
            final(self).same_except(&*old(self), handle),
            !old(self).handles().contains(handle) ==> r == Err::<Vec<IdScore>, FtError>(FtError::UnknownHandle),
            old(self).handles().contains(handle) ==> query_outcome(old(self).index_of(handle), final(self).index_of(handle), query@, top_n, r),
    {
        match self.take(handle) {
            None => {
                assert(self.handles() =~= old(self).handles());
                Err(FtError::UnknownHandle)
            },
            Some(mut ft) => {
                let r = ft_query(&mut ft, query, &QueryOptions { top_n });
                self.slots.set(handle, Some(ft));
                assert(self.handles() =~= old(self).handles());
                r
            },
        }
    }
}

} // verus!
