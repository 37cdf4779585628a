//! Category aggregation.
//!
//! Objective-C allows splitting a class across multiple `@interface Foo (Cat)`
//! blocks in separate files.  This module tracks which categories belong to
//! which base class so that `documentSymbol` and `findReferences` can present
//! a unified view.

use vstd::prelude::*;

use crate::multimap::{distinct_keys, lemma_push_then_values, values_of, push_value, MultiMap};

verus! {

/// A single category entry.
#[derive(Debug, Clone)]
pub struct CategoryInfo {
    pub base_class: String,
    pub category_name: String,
    pub file: String,
    pub line: u32,
}

/// In-memory category registry.
pub struct CategoryRegistry {
    /// base_class → list of categories.
    map: MultiMap<CategoryInfo>,
}

impl CategoryRegistry {
    pub closed spec fn wf(&self) -> bool {
        self.map.wf()
    }

    /// Base classes and their categories, in order of first registration.
    pub closed spec fn view(&self) -> Seq<(Seq<char>, Seq<CategoryInfo>)> {
        self.map.view()
    }

    pub fn new() -> (r: Self)
        ensures
            r.wf(),
            r.view() == Seq::<(Seq<char>, Seq<CategoryInfo>)>::empty(),
    {
        CategoryRegistry { map: MultiMap::new() }
    }

    /// Register a category discovered during indexing.
    pub fn register(&mut self, info: CategoryInfo)
        requires
            old(self).wf(),
        ensures
            final(self).wf(),
            final(self).view() == push_value(old(self).view(), info.base_class@, info),
            distinct_keys(final(self).view()),
    {
        let key = info.base_class.clone();
        self.map.push(key, info);
    }

    /// All categories for `base_class`.
    pub fn categories_for(&self, base_class: &str) -> (r: &[CategoryInfo])
        requires
            self.wf(),
        ensures
            r@ == values_of(self.view(), base_class@),
    {
        match self.map.get(base_class) {
            Some(l) => l.as_slice(),
            None => &[],
        }
    }

    /// All registered base classes, in order of first registration.
    pub fn all_base_classes(&self) -> (r: Vec<&str>)
        requires
            self.wf(),
        ensures
            r.len() == self.view().len(),
            forall|i: int| 0 <= i < r.len() ==> #[trigger] r@[i]@ == self.view()[i].0,
    {
        let n = self.map.len();
        let mut r: Vec<&str> = Vec::new();
        let mut i: usize = 0;
        while i < n
            invariant
                self.wf(),
                n == self.view().len(),
                i <= n,
                r.len() == i,
                forall|j: int| 0 <= j < i ==> #[trigger] r@[j]@ == self.view()[j].0,
            decreases n - i,
        {
            r.push(self.map.key_at(i).as_str());
            i = i + 1;
        }
        r
    }
}

/// The registry's table after registering `infos`, in turn, into an empty
/// one.
pub open spec fn registered(infos: Seq<CategoryInfo>) -> Seq<(Seq<char>, Seq<CategoryInfo>)>
    decreases infos.len(),
{
    if infos.len() == 0 {
        seq![]
    } else {
        push_value(registered(infos.drop_last()), infos.last().base_class@, infos.last())
    }
}

/// The categories of `infos` whose base class is `base`, in order.
pub open spec fn of_class(infos: Seq<CategoryInfo>, base: Seq<char>) -> Seq<CategoryInfo>
    decreases infos.len(),
{
    if infos.len() == 0 {
        seq![]
    } else if infos.last().base_class@ == base {
        of_class(infos.drop_last(), base).push(infos.last())
    } else {
        of_class(infos.drop_last(), base)
    }
}

/// After any sequence of registrations into an empty registry,
/// `categories_for(base)` gives exactly the categories registered for
/// `base`, in the order they were registered.
pub proof fn lemma_categories_in_registration_order(infos: Seq<CategoryInfo>, base: Seq<char>)
    ensures
        distinct_keys(registered(infos)),
        values_of(registered(infos), base) == of_class(infos, base),
    decreases infos.len(),
{
    if infos.len() > 0 {
        lemma_categories_in_registration_order(infos.drop_last(), base);
        lemma_push_then_values(registered(infos.drop_last()), infos.last().base_class@, infos.last(), base);
    } else {
        assert(values_of(registered(infos), base) =~= Seq::<CategoryInfo>::empty());
    }
}

} // verus!
