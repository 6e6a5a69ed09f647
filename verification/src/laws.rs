use vstd::prelude::*;

use crate::item::all_done;
use crate::item::lemma_without_id_absent;
use crate::item::none_done;
use crate::item::set_all;
use crate::item::with_toggled;
use crate::item::without_id;
use crate::render::spec_project;
use crate::store::spec_dispatch;
use crate::store::ActionView;
use crate::store::Filter;
use crate::store::StateView;
use crate::text::is_blank;

verus! {

/// Uniqueness: in every well-formed state the item ids are pairwise
/// distinct.  Together with `Model::create` establishing the invariant and
/// `lemma_dispatch_preserves_wf` keeping it across every action, the ids of
/// any sequence of additions stay distinct, however removals interleave.
pub proof fn lemma_wf_ids_distinct(s: StateView)
    requires
        s.wf(),
    ensures
        forall|i: int, j: int|
            0 <= i < s.items.len() && 0 <= j < s.items.len() && i != j ==> #[trigger] s.items[i].id
                != #[trigger] s.items[j].id,
{
    assert forall|i: int, j: int|
        0 <= i < s.items.len() && 0 <= j < s.items.len() && i != j implies #[trigger] s.items[i].id
        != #[trigger] s.items[j].id by {
        if i < j {
            assert(s.items[i].id < s.items[j].id);
        } else {
            assert(s.items[j].id < s.items[i].id);
        }
    }
}

/// Removing an id that no item holds is a no-op: the state comes back
/// structurally unchanged.
pub proof fn lemma_remove_absent_noop(s: StateView, id: int)
    requires
        forall|i: int| 0 <= i < s.items.len() ==> #[trigger] s.items[i].id != id,
    ensures
        spec_dispatch(s, ActionView::RemoveItem(id)) == s,
{
    lemma_without_id_absent(s.items, id);
    assert(spec_dispatch(s, ActionView::RemoveItem(id)) =~= s);
}

/// Toggling an id that no item holds is a no-op: the state comes back
/// structurally unchanged.
pub proof fn lemma_toggle_absent_noop(s: StateView, id: int)
    requires
        forall|i: int| 0 <= i < s.items.len() ==> #[trigger] s.items[i].id != id,
    ensures
        spec_dispatch(s, ActionView::ToggleItem(id)) == s,
{
    let out = with_toggled(s.items, id);
    assert forall|i: int| 0 <= i < out.len() implies #[trigger] out[i] == s.items[i] by {
        assert(s.items[i].id != id);
    }
    assert(out =~= s.items);
    assert(spec_dispatch(s, ActionView::ToggleItem(id)) =~= s);
}

/// Bulk toggling twice restores a non-empty list whose completion flags are
/// uniform (all completed, or none completed).  On a mixed list the two
/// toggles instead leave every item not completed: the bulk action means
/// "complete everything unless everything is already complete", not "flip
/// each item".
pub proof fn lemma_toggle_all_involution(s: StateView)
    requires
        s.items.len() > 0,
        all_done(s.items) || none_done(s.items),
    ensures
        spec_dispatch(spec_dispatch(s, ActionView::ToggleAll), ActionView::ToggleAll) == s,
{
    let s1 = spec_dispatch(s, ActionView::ToggleAll);
    let s2 = spec_dispatch(s1, ActionView::ToggleAll);
    if all_done(s.items) {
        assert(s1.items == set_all(s.items, false));
        assert(!s1.items[0].completed);
        assert(!all_done(s1.items));
        assert(s2.items == set_all(s1.items, true));
        assert forall|i: int| 0 <= i < s.items.len() implies #[trigger] s2.items[i]
            == s.items[i] by {
            assert(s.items[i].completed);
        }
        assert(s2.items =~= s.items);
    } else {
        assert(!s.items[0].completed);
        assert(!all_done(s.items));
        assert(s1.items == set_all(s.items, true));
        assert forall|i: int| 0 <= i < s1.items.len() implies #[trigger] s1.items[i].completed by {}
        assert(all_done(s1.items));
        assert(s2.items == set_all(s1.items, false));
        assert forall|i: int| 0 <= i < s.items.len() implies #[trigger] s2.items[i]
            == s.items[i] by {
            assert(!s.items[i].completed);
        }
        assert(s2.items =~= s.items);
    }
    assert(s2 =~= s);
}

/// Filter purity: changing the tab never alters the remaining-item count,
/// because the projection counts the whole list and the tab touches no item.
/// (That two projections of one state are equal render models is the
/// `project` contract itself: its result is a function of the state view.)
pub proof fn lemma_change_filter_keeps_remaining(s: StateView, f: Filter)
    ensures
        spec_project(spec_dispatch(s, ActionView::ChangeFilter(f))).remaining_count == spec_project(
            s,
        ).remaining_count,
{
}

/// Whitespace rejection: adding blank text is a no-op; the state, its item
/// list included, comes back structurally unchanged.
pub proof fn lemma_blank_add_noop(s: StateView, t: Seq<char>)
    requires
        is_blank(t),
    ensures
        spec_dispatch(s, ActionView::AddItem(t)) == s,
{
}

} // verus!
