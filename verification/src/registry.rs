//! The extension registry's bookkeeping: which ids are registered (each once,
//! in registration order), which of them provide function-panel content, and
//! where an extension intent is routed.

use vstd::prelude::*;
use crate::state::{FunctionPanelState, views};
use crate::text::str_eq;

verus! {

/// What the UI hands an extension to draw the function panel: the panel's
/// size, whether it has focus, and its content and view state.
pub struct FunctionRenderCtx<'a> {
    pub width: u16,
    pub height: u16,
    pub focused: bool,
    pub func: &'a FunctionPanelState,
}

/// The registered extensions by id, with whether each provides content.
pub struct ExtensionTable {
    pub ids: Vec<String>,
    pub provides: Vec<bool>,
}

/// The first index from `k` on whose id is `id`.
pub open spec fn index_of(ids: Seq<Seq<char>>, id: Seq<char>, k: int) -> Option<int>
    decreases ids.len() - k,
{
    if k < 0 || k >= ids.len() { None } else if ids[k] == id { Some(k) } else { index_of(ids, id, k + 1) }
}

/// The first index from `k` on that provides content.
pub open spec fn first_provider(ps: Seq<bool>, k: int) -> Option<int>
    decreases ps.len() - k,
{
    if k < 0 || k >= ps.len() { None } else if ps[k] { Some(k) } else { first_provider(ps, k + 1) }
}

impl ExtensionTable {
    /// One flag per id, and no id twice.
    pub open spec fn wf(&self) -> bool {
        &&& self.ids@.len() == self.provides@.len()
        &&& forall|i: int, j: int| 0 <= i < j < self.ids@.len() ==> self.ids@[i]@ != self.ids@[j]@
    }

    /// No extension registered.
    pub fn new() -> (t: ExtensionTable)
        ensures
            t.wf(),
            t.ids@.len() == 0,
    {
        ExtensionTable { ids: Vec::new(), provides: Vec::new() }
    }

    /// Where `id` is registered.
    pub fn find(&self, id: &str) -> (r: Option<usize>)
        ensures
            r == (match index_of(views(self.ids@), id@, 0) { Some(i) => Some(i as usize), None => None::<usize> }),
            r matches Some(i) ==> i < self.ids@.len() && self.ids@[i as int]@ == id@,
            r is None ==> !views(self.ids@).contains(id@),
    {
        let ghost vs = views(self.ids@);
        let mut i: usize = 0;
        while i < self.ids.len()
            invariant
                i <= self.ids@.len(),
                vs == views(self.ids@),
                index_of(vs, id@, 0) == index_of(vs, id@, i as int),
                forall|j: int| 0 <= j < i ==> vs[j] != id@,
            decreases self.ids@.len() - i,
        {
            if str_eq(self.ids[i].as_str(), id) {
                return Some(i);
            }
            i = i + 1;
        }
        proof {
            if vs.contains(id@) {
                let j = choose|j: int| 0 <= j < vs.len() && vs[j] == id@;
                assert(vs[j] != id@);
            }
        }
        None
    }

    /// Register `id`: refused (and `false`) when it is taken, so the earlier
    /// extension keeps it; else appended with its content flag.
    pub fn register(&mut self, id: &str, provides: bool) -> (added: bool)
        requires
            old(self).wf(),
        ensures
            final(self).wf(),
            added == !views(old(self).ids@).contains(id@),
            added ==> views(final(self).ids@) == views(old(self).ids@).push(id@)
                && final(self).provides@ == old(self).provides@.push(provides),
            !added ==> final(self).ids@ == old(self).ids@ && final(self).provides@ == old(self).provides@,
    {
        match self.find(id) {
            Some(i) => {
                assert(views(self.ids@)[i as int] == id@);
                false
            }
            None => {
                let ghost before = views(self.ids@);
                self.ids.push(id.to_owned());
                self.provides.push(provides);
                assert(views(self.ids@) =~= before.push(id@));
                assert forall|i: int, j: int| 0 <= i < j < self.ids@.len() implies self.ids@[i]@ != self.ids@[j]@ by {
                    if j == self.ids@.len() - 1 {
                        assert(before[i] == self.ids@[i]@);
                    }
                }
                true
            }
        }
    }

    /// The content provider: the first registered extension that provides
    /// function-panel content.
    pub fn provider(&self) -> (r: Option<usize>)
        requires
            self.wf(),
        ensures
            r == (match first_provider(self.provides@, 0) { Some(i) => Some(i as usize), None => None::<usize> }),
            r matches Some(i) ==> i < self.provides@.len() && self.provides@[i as int],
            r is None ==> forall|j: int| 0 <= j < self.provides@.len() ==> !self.provides@[j],
    {
        let mut i: usize = 0;
        while i < self.provides.len()
            invariant
                i <= self.provides@.len(),
                first_provider(self.provides@, 0) == first_provider(self.provides@, i as int),
                forall|j: int| 0 <= j < i ==> !self.provides@[j],
            decreases self.provides@.len() - i,
        {
            if self.provides[i] {
                return Some(i);
            }
            i = i + 1;
        }
        None
    }
}

} // verus!
