use vstd::prelude::*;

verus! {

/// A single task: its text, its completion flag, and an id that is unique
/// for the lifetime of the store.  The id is assigned at creation and never
/// mutated; the text is immutable once created.
#[derive(Debug)]
pub struct Todo {
    pub id: u64,
    pub text: String,
    pub completed: bool,
}

/// The mathematical value of one task.
#[verifier::ext_equal]
pub ghost struct ItemView {
    pub id: int,
    pub text: Seq<char>,
    pub completed: bool,
}

impl View for Todo {
    type V = ItemView;

    open spec fn view(&self) -> ItemView {
        ItemView { id: self.id as int, text: self.text@, completed: self.completed }
    }
}

/// The mathematical value of a whole item list.
pub open spec fn items_view(items: Seq<Todo>) -> Seq<ItemView> {
    items.map_values(|t: Todo| t@)
}

/// The list without every item of the given id; relative order is kept.
pub open spec fn without_id(items: Seq<ItemView>, id: int) -> Seq<ItemView> {
    items.filter(|it: ItemView| it.id != id)
}

/// The items that are not yet completed, in order: the survivors of a bulk
/// clear, and the list whose length is the remaining-item count.
pub open spec fn active_items(items: Seq<ItemView>) -> Seq<ItemView> {
    items.filter(|it: ItemView| !it.completed)
}

/// The items already completed, in order.
pub open spec fn completed_items(items: Seq<ItemView>) -> Seq<ItemView> {
    items.filter(|it: ItemView| it.completed)
}

/// The list with the completion flag of every item of the given id flipped,
/// and every other item untouched.
pub open spec fn with_toggled(items: Seq<ItemView>, id: int) -> Seq<ItemView> {
    items.map_values(
        |it: ItemView|
            if it.id == id {
                ItemView { completed: !it.completed, ..it }
            } else {
                it
            },
    )
}

/// The list with every completion flag set to the given value.
pub open spec fn set_all(items: Seq<ItemView>, done: bool) -> Seq<ItemView> {
    items.map_values(|it: ItemView| ItemView { completed: done, ..it })
}

/// Every item of the list is completed; vacuously true of the empty list.
pub open spec fn all_done(items: Seq<ItemView>) -> bool {
    forall|i: int| 0 <= i < items.len() ==> items[i].completed
}

/// No item of the list is completed; vacuously true of the empty list.
pub open spec fn none_done(items: Seq<ItemView>) -> bool {
    forall|i: int| 0 <= i < items.len() ==> !items[i].completed
}

/// The ids grow strictly along the list: items are appended with a fresh id
/// taken from a strictly increasing counter, and every transition keeps the
/// relative order, so the store only ever holds such lists.
pub open spec fn ids_increasing(items: Seq<ItemView>) -> bool {
    forall|i: int, j: int|
        0 <= i < j < items.len() ==> #[trigger] items[i].id < #[trigger] items[j].id
}

/// Every id of the list lies strictly below the bound.
pub open spec fn ids_below(items: Seq<ItemView>, bound: int) -> bool {
    forall|i: int| 0 <= i < items.len() ==> #[trigger] items[i].id < bound
}

/// An exact copy of one task.
pub(crate) fn copy_todo(t: &Todo) -> (r: Todo)
    ensures
        r@ == t@,
{
    Todo { id: t.id, text: t.text.clone(), completed: t.completed }
}

/// How `without_id` grows when one item is appended.
pub(crate) proof fn lemma_without_id_push(items: Seq<ItemView>, id: int, x: ItemView)
    ensures
        without_id(items.push(x), id) == if x.id != id {
            without_id(items, id).push(x)
        } else {
            without_id(items, id)
        },
{
    reveal(Seq::filter);
    assert(items.push(x).drop_last() =~= items);
}

/// How `active_items` grows when one item is appended.
pub(crate) proof fn lemma_active_push(items: Seq<ItemView>, x: ItemView)
    ensures
        active_items(items.push(x)) == if !x.completed {
            active_items(items).push(x)
        } else {
            active_items(items)
        },
{
    reveal(Seq::filter);
    assert(items.push(x).drop_last() =~= items);
}

/// How `completed_items` grows when one item is appended.
pub(crate) proof fn lemma_completed_push(items: Seq<ItemView>, x: ItemView)
    ensures
        completed_items(items.push(x)) == if x.completed {
            completed_items(items).push(x)
        } else {
            completed_items(items)
        },
{
    reveal(Seq::filter);
    assert(items.push(x).drop_last() =~= items);
}

/// Removing an id that no item holds removes nothing.
pub(crate) proof fn lemma_without_id_absent(items: Seq<ItemView>, id: int)
    requires
        forall|i: int| 0 <= i < items.len() ==> #[trigger] items[i].id != id,
    ensures
        without_id(items, id) == items,
    decreases items.len(),
{
    reveal(Seq::filter);
    if items.len() > 0 {
        lemma_without_id_absent(items.drop_last(), id);
        assert(items.drop_last().push(items.last()) =~= items);
    }
}

/// Removing items by id keeps the ids strictly increasing and below any
/// bound they were below.
pub(crate) proof fn lemma_without_id_ids(items: Seq<ItemView>, id: int, bound: int)
    requires
        ids_increasing(items),
        ids_below(items, bound),
    ensures
        ids_increasing(without_id(items, id)),
        ids_below(without_id(items, id), bound),
    decreases items.len(),
{
    reveal(Seq::filter);
    if items.len() > 0 {
        let rest = items.drop_last();
        let last = items.last();
        assert(ids_below(rest, last.id));
        lemma_without_id_ids(rest, id, bound);
        lemma_without_id_ids(rest, id, last.id);
    }
}

/// Clearing completed items keeps the ids strictly increasing and below any
/// bound they were below.
pub(crate) proof fn lemma_active_ids(items: Seq<ItemView>, bound: int)
    requires
        ids_increasing(items),
        ids_below(items, bound),
    ensures
        ids_increasing(active_items(items)),
        ids_below(active_items(items), bound),
    decreases items.len(),
{
    reveal(Seq::filter);
    if items.len() > 0 {
        let rest = items.drop_last();
        let last = items.last();
        assert(ids_below(rest, last.id));
        lemma_active_ids(rest, bound);
        lemma_active_ids(rest, last.id);
    }
}

} // verus!
