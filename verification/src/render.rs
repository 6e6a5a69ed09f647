use vstd::prelude::*;

use crate::item::active_items;
use crate::item::all_done;
use crate::item::completed_items;
use crate::item::copy_todo;
use crate::item::items_view;
use crate::item::lemma_active_push;
use crate::item::lemma_completed_push;
use crate::item::ItemView;
use crate::item::Todo;
use crate::store::all_items_done;
use crate::store::keep_active;
use crate::store::Filter;
use crate::store::Model;
use crate::store::StateView;

verus! {

/// The derived, read-only data the view layer consumes.  Never stored:
/// recomputed from the state on demand.
#[derive(Debug)]
pub struct RenderModel {
    /// The items the active tab lets through, in list order.
    pub visible_items: Vec<Todo>,
    /// How many items of the whole, unfiltered list are not yet completed.
    pub remaining_count: usize,
    /// The list is non-empty and every item is completed; decides whether
    /// the bulk toggle offers to complete or to un-complete.
    pub all_completed: bool,
    /// The unfiltered list is non-empty; gates the filter and bulk controls.
    pub has_any_items: bool,
}

/// The mathematical value of a render model.
#[verifier::ext_equal]
pub ghost struct RenderView {
    pub visible_items: Seq<ItemView>,
    pub remaining_count: int,
    pub all_completed: bool,
    pub has_any_items: bool,
}

impl View for RenderModel {
    type V = RenderView;

    open spec fn view(&self) -> RenderView {
        RenderView {
            visible_items: items_view(self.visible_items@),
            remaining_count: self.remaining_count as int,
            all_completed: self.all_completed,
            has_any_items: self.has_any_items,
        }
    }
}

/// Which items a tab lets through: `All` everything, `Active` the ones not
/// yet completed, `Completed` the rest; relative order always kept.
pub open spec fn visible_of(f: Filter, items: Seq<ItemView>) -> Seq<ItemView> {
    match f {
        Filter::All => items,
        Filter::Active => active_items(items),
        Filter::Completed => completed_items(items),
    }
}

/// What the view layer should display for a state.  The remaining count
/// reflects the whole list, never the current tab.
pub open spec fn spec_project(s: StateView) -> RenderView {
    RenderView {
        visible_items: visible_of(s.filter, s.items),
        remaining_count: active_items(s.items).len() as int,
        all_completed: s.items.len() > 0 && all_done(s.items),
        has_any_items: s.items.len() > 0,
    }
}

/// Computes the render model of a state: a pure function, safe to call on
/// every render tick, with no effect on the state.
pub fn project(state: &Model) -> (rm: RenderModel)
    ensures
        rm@ == spec_project(state@),
{
    let visible: Vec<Todo> = match state.filter {
        Filter::All => copy_items(&state.items),
        Filter::Active => keep_active(&state.items),
        Filter::Completed => keep_completed(&state.items),
    };
    let remaining: usize = count_active(&state.items);
    let has_any: bool = state.items.len() > 0;
    let all: bool = has_any && all_items_done(&state.items);
    let rm = RenderModel {
        visible_items: visible,
        remaining_count: remaining,
        all_completed: all,
        has_any_items: has_any,
    };
    proof {
        assert(rm@ =~= spec_project(state@));
    }
    rm
}

/// An exact copy of the whole list.
fn copy_items(items: &Vec<Todo>) -> (out: Vec<Todo>)
    ensures
        items_view(out@) == items_view(items@),
{
    let mut out: Vec<Todo> = Vec::new();
    let n: usize = items.len();
    let mut i: usize = 0;
    while i < n
        invariant
            n == items@.len(),
            i <= n,
            out@.len() == i,
            forall|j: int| 0 <= j < i ==> #[trigger] out@[j]@ == items_view(items@)[j],
        decreases n - i,
    {
        out.push(copy_todo(&items[i]));
        i = i + 1;
    }
    proof {
        assert(items_view(out@) =~= items_view(items@));
    }
    out
}

/// The completed items, in order, built front to back.
fn keep_completed(items: &Vec<Todo>) -> (out: Vec<Todo>)
    ensures
        items_view(out@) == completed_items(items_view(items@)),
{
    let mut out: Vec<Todo> = Vec::new();
    let n: usize = items.len();
    let mut i: usize = 0;
    proof {
        reveal(Seq::filter);
        assert(items_view(out@) =~= Seq::<ItemView>::empty());
        assert(items_view(items@).take(0) =~= Seq::<ItemView>::empty());
    }
    while i < n
        invariant
            n == items@.len(),
            i <= n,
            items_view(out@) == completed_items(items_view(items@).take(i as int)),
        decreases n - i,
    {
        let ghost iv = items_view(items@);
        let ghost prev = items_view(out@);
        let t = &items[i];
        if t.completed {
            out.push(copy_todo(t));
            proof {
                assert(items_view(out@) =~= prev.push(iv[i as int]));
            }
        }
        proof {
            lemma_completed_push(iv.take(i as int), iv[i as int]);
            assert(iv.take(i as int + 1) =~= iv.take(i as int).push(iv[i as int]));
        }
        i = i + 1;
    }
    proof {
        assert(items_view(items@).take(n as int) =~= items_view(items@));
    }
    out
}

/// How many items of the list are not yet completed.
fn count_active(items: &Vec<Todo>) -> (r: usize)
    ensures
        r as int == active_items(items_view(items@)).len(),
{
    let mut count: usize = 0;
    let n: usize = items.len();
    let mut i: usize = 0;
    proof {
        reveal(Seq::filter);
        assert(items_view(items@).take(0) =~= Seq::<ItemView>::empty());
    }
    while i < n
        invariant
            n == items@.len(),
            i <= n,
            count <= i,
            count as int == active_items(items_view(items@).take(i as int)).len(),
        decreases n - i,
    {
        let ghost iv = items_view(items@);
        proof {
            lemma_active_push(iv.take(i as int), iv[i as int]);
            assert(iv.take(i as int + 1) =~= iv.take(i as int).push(iv[i as int]));
        }
        if !items[i].completed {
            count = count + 1;
        }
        i = i + 1;
    }
    proof {
        assert(items_view(items@).take(n as int) =~= items_view(items@));
    }
    count
}

} // verus!
