use vstd::prelude::*;

use crate::item::active_items;
use crate::item::all_done;
use crate::item::copy_todo;
use crate::item::ids_below;
use crate::item::ids_increasing;
use crate::item::items_view;
use crate::item::lemma_active_ids;
use crate::item::lemma_active_push;
use crate::item::lemma_without_id_ids;
use crate::item::lemma_without_id_push;
use crate::item::set_all;
use crate::item::with_toggled;
use crate::item::without_id;
use crate::item::ItemView;
use crate::item::Todo;
use crate::text::is_blank;
use crate::text::text_is_blank;

verus! {

/// The view selector: which items the projector surfaces.  Exactly one tab
/// is active at a time; it never affects the underlying item list.
#[derive(Clone, Copy, Debug, PartialEq, Eq, Structural)]
pub enum Filter {
    All,
    Active,
    Completed,
}

/// A discrete user intent, carrying only plain data.  Every action is
/// accepted in every state: actions whose precondition fails (blank text, an
/// absent id) leave the state unchanged rather than failing.
#[derive(Debug)]
pub enum Msg {
    /// Select a tab; the items are untouched.
    ChangeFilter(Filter),
    /// Append a new task, unless the text is blank.
    AddItem(String),
    /// Remove the task with this id, if present; order of the rest is kept.
    RemoveItem(u64),
    /// Flip the completion flag of the task with this id, if present.
    ToggleItem(u64),
    /// If every task is completed, mark all not completed; otherwise mark
    /// all completed.
    ToggleAll,
    /// Remove every completed task; relative order of survivors is kept.
    ClearCompleted,
}

/// The mathematical value of an action.
pub ghost enum ActionView {
    ChangeFilter(Filter),
    AddItem(Seq<char>),
    RemoveItem(int),
    ToggleItem(int),
    ToggleAll,
    ClearCompleted,
}

impl View for Msg {
    type V = ActionView;

    open spec fn view(&self) -> ActionView {
        match self {
            Msg::ChangeFilter(f) => ActionView::ChangeFilter(*f),
            Msg::AddItem(t) => ActionView::AddItem(t@),
            Msg::RemoveItem(id) => ActionView::RemoveItem(*id as int),
            Msg::ToggleItem(id) => ActionView::ToggleItem(*id as int),
            Msg::ToggleAll => ActionView::ToggleAll,
            Msg::ClearCompleted => ActionView::ClearCompleted,
        }
    }
}

/// The mathematical value of the store's full state.
#[verifier::ext_equal]
pub ghost struct StateView {
    pub items: Seq<ItemView>,
    pub filter: Filter,
    pub next_id: int,
}

impl StateView {
    /// The store's invariant: ids grow strictly along the list and lie below
    /// the allocation counter, so every id is unique and a removed id is
    /// never handed out again.
    pub open spec fn wf(self) -> bool {
        ids_increasing(self.items) && ids_below(self.items, self.next_id)
    }
}

/// The state a store starts in: no items, the `All` tab, and the id counter
/// at zero.
pub open spec fn initial_state() -> StateView {
    StateView { items: Seq::empty(), filter: Filter::All, next_id: 0 }
}

/// The transition table: the next state derived from the current state and
/// one action.  Total: every action yields a state, and an action whose
/// precondition fails yields the input state itself.
pub open spec fn spec_dispatch(s: StateView, a: ActionView) -> StateView {
    match a {
        ActionView::ChangeFilter(f) => StateView { filter: f, ..s },
        ActionView::AddItem(t) => if is_blank(t) {
            s
        } else {
            StateView {
                items: s.items.push(ItemView { id: s.next_id, text: t, completed: false }),
                filter: s.filter,
                next_id: s.next_id + 1,
            }
        },
        ActionView::RemoveItem(id) => StateView { items: without_id(s.items, id), ..s },
        ActionView::ToggleItem(id) => StateView { items: with_toggled(s.items, id), ..s },
        ActionView::ToggleAll => if s.items.len() == 0 {
            s
        } else {
            StateView { items: set_all(s.items, !all_done(s.items)), ..s }
        },
        ActionView::ClearCompleted => StateView { items: active_items(s.items), ..s },
    }
}

/// Every transition preserves the store's invariant: appended items take the
/// fresh counter value, removals keep a subsequence, and toggles leave every
/// id in place.
pub proof fn lemma_dispatch_preserves_wf(s: StateView, a: ActionView)
    requires
        s.wf(),
    ensures
        spec_dispatch(s, a).wf(),
{
    match a {
        ActionView::ChangeFilter(_f) => {},
        ActionView::AddItem(t) => {
            if !is_blank(t) {
                let x = ItemView { id: s.next_id, text: t, completed: false };
                let out = s.items.push(x);
                assert forall|i: int, j: int| 0 <= i < j < out.len() implies #[trigger] out[i].id
                    < #[trigger] out[j].id by {
                    if j < s.items.len() {
                        assert(s.items[i].id < s.items[j].id);
                    } else {
                        assert(out[i] == s.items[i]);
                        assert(s.items[i].id < s.next_id);
                    }
                }
                assert forall|i: int| 0 <= i < out.len() implies #[trigger] out[i].id < s.next_id
                    + 1 by {
                    if i < s.items.len() {
                        assert(s.items[i].id < s.next_id);
                    }
                }
            }
        },
        ActionView::RemoveItem(id) => {
            lemma_without_id_ids(s.items, id, s.next_id);
        },
        ActionView::ToggleItem(id) => {
            let out = with_toggled(s.items, id);
            assert forall|i: int| 0 <= i < out.len() implies #[trigger] out[i].id
                == s.items[i].id by {}
        },
        ActionView::ToggleAll => {
            if s.items.len() > 0 {
                let out = set_all(s.items, !all_done(s.items));
                assert forall|i: int| 0 <= i < out.len() implies #[trigger] out[i].id
                    == s.items[i].id by {}
            }
        },
        ActionView::ClearCompleted => {
            lemma_active_ids(s.items, s.next_id);
        },
    }
}

/// The store's state: the ordered item list, the active tab, and the counter
/// the next id is taken from.  A value, never mutated in place: `dispatch`
/// consumes a state and returns the next one.
#[derive(Debug)]
pub struct Model {
    pub items: Vec<Todo>,
    pub filter: Filter,
    pub next_id: u64,
}

impl View for Model {
    type V = StateView;

    open spec fn view(&self) -> StateView {
        StateView {
            items: items_view(self.items@),
            filter: self.filter,
            next_id: self.next_id as int,
        }
    }
}

impl Model {
    /// A fresh store: empty list, `All` tab, id counter at zero.
    pub fn create() -> (m: Model)
        ensures
            m@ == initial_state(),
            m@.wf(),
    {
        let m = Model { items: Vec::new(), filter: Filter::All, next_id: 0 };
        proof {
            assert(m@.items =~= Seq::<ItemView>::empty());
            assert(m@ =~= initial_state());
        }
        m
    }

    /// Applies one action and returns the next state, exactly as the
    /// transition table `spec_dispatch` says; the store's invariant is
    /// preserved.  The one machine limit: a non-blank `AddItem` needs room
    /// in the id counter.
    pub fn dispatch(self, action: Msg) -> (next: Model)
        requires
            (action@ matches ActionView::AddItem(t) && !is_blank(t)) ==> self@.next_id < u64::MAX
                as int,
        ensures
            next@ == spec_dispatch(self@, action@),
            self@.wf() ==> next@.wf(),
    {
        proof {
            if self@.wf() {
                lemma_dispatch_preserves_wf(self@, action@);
            }
        }
        let ghost s = self@;
        match action {
            Msg::ChangeFilter(f) => Model {
                items: self.items,
                filter: f,
                next_id: self.next_id,
            },
            Msg::AddItem(text) => {
                if text_is_blank(&text) {
                    self
                } else {
                    let ghost tv = text@;
                    let mut items = self.items;
                    let filter = self.filter;
                    let next_id = self.next_id;
                    items.push(Todo { id: next_id, text, completed: false });
                    proof {
                        assert(items_view(items@) =~= s.items.push(
                            ItemView { id: s.next_id, text: tv, completed: false },
                        ));
                    }
                    Model { items, filter, next_id: next_id + 1 }
                }
            },
            Msg::RemoveItem(id) => Model {
                items: remove_by_id(&self.items, id),
                filter: self.filter,
                next_id: self.next_id,
            },
            Msg::ToggleItem(id) => Model {
                items: toggle_by_id(&self.items, id),
                filter: self.filter,
                next_id: self.next_id,
            },
            Msg::ToggleAll => {
                if self.items.len() == 0 {
                    self
                } else {
                    let done = all_items_done(&self.items);
                    Model {
                        items: set_all_completed(&self.items, !done),
                        filter: self.filter,
                        next_id: self.next_id,
                    }
                }
            },
            Msg::ClearCompleted => Model {
                items: keep_active(&self.items),
                filter: self.filter,
                next_id: self.next_id,
            },
        }
    }
}

/// The list without the item of the given id, built front to back.
fn remove_by_id(items: &Vec<Todo>, id: u64) -> (out: Vec<Todo>)
    ensures
        items_view(out@) == without_id(items_view(items@), id as int),
{
    let mut out: Vec<Todo> = Vec::new();
    let n: usize = items.len();
    let mut i: usize = 0;
    proof {
        reveal(Seq::filter);
        assert(items_view(out@) =~= Seq::<ItemView>::empty());
        assert(items_view(items@).take(0) =~= Seq::<ItemView>::empty());
    }
    while i < n
        invariant
            n == items@.len(),
            i <= n,
            items_view(out@) == without_id(items_view(items@).take(i as int), id as int),
        decreases n - i,
    {
        let ghost iv = items_view(items@);
        let ghost prev = items_view(out@);
        let t = &items[i];
        if t.id != id {
            out.push(copy_todo(t));
            proof {
                assert(items_view(out@) =~= prev.push(iv[i as int]));
            }
        }
        proof {
            lemma_without_id_push(iv.take(i as int), id as int, iv[i as int]);
            assert(iv.take(i as int + 1) =~= iv.take(i as int).push(iv[i as int]));
        }
        i = i + 1;
    }
    proof {
        assert(items_view(items@).take(n as int) =~= items_view(items@));
    }
    out
}

/// The list with the completion flag of the item of the given id flipped.
fn toggle_by_id(items: &Vec<Todo>, id: u64) -> (out: Vec<Todo>)
    ensures
        items_view(out@) == with_toggled(items_view(items@), id as int),
{
    let mut out: Vec<Todo> = Vec::new();
    let n: usize = items.len();
    let mut i: usize = 0;
    while i < n
        invariant
            n == items@.len(),
            i <= n,
            out@.len() == i,
            forall|j: int|
                0 <= j < i ==> #[trigger] out@[j]@ == with_toggled(items_view(items@), id as int)[j],
        decreases n - i,
    {
        let t = &items[i];
        if t.id == id {
            out.push(Todo { id: t.id, text: t.text.clone(), completed: !t.completed });
        } else {
            out.push(copy_todo(t));
        }
        i = i + 1;
    }
    proof {
        assert(items_view(out@) =~= with_toggled(items_view(items@), id as int));
    }
    out
}

/// The list with every completion flag set to the given value.
fn set_all_completed(items: &Vec<Todo>, done: bool) -> (out: Vec<Todo>)
    ensures
        items_view(out@) == set_all(items_view(items@), done),
{
    let mut out: Vec<Todo> = Vec::new();
    let n: usize = items.len();
    let mut i: usize = 0;
    while i < n
        invariant
            n == items@.len(),
            i <= n,
            out@.len() == i,
            forall|j: int|
                0 <= j < i ==> #[trigger] out@[j]@ == set_all(items_view(items@), done)[j],
        decreases n - i,
    {
        let t = &items[i];
        out.push(Todo { id: t.id, text: t.text.clone(), completed: done });
        i = i + 1;
    }
    proof {
        assert(items_view(out@) =~= set_all(items_view(items@), done));
    }
    out
}

/// Whether every item of the list is completed.
pub(crate) fn all_items_done(items: &Vec<Todo>) -> (r: bool)
    ensures
        r == all_done(items_view(items@)),
{
    let n: usize = items.len();
    let mut i: usize = 0;
    while i < n
        invariant
            n == items@.len(),
            i <= n,
            forall|j: int| 0 <= j < i ==> #[trigger] items_view(items@)[j].completed,
        decreases n - i,
    {
        if !items[i].completed {
            proof {
                assert(!items_view(items@)[i as int].completed);
            }
            return false;
        }
        i = i + 1;
    }
    true
}

/// The items not yet completed, in order, built front to back.
pub(crate) fn keep_active(items: &Vec<Todo>) -> (out: Vec<Todo>)
    ensures
        items_view(out@) == active_items(items_view(items@)),
{
    let mut out: Vec<Todo> = Vec::new();
    let n: usize = items.len();
    let mut i: usize = 0;
    proof {
        reveal(Seq::filter);
        assert(items_view(out@) =~= Seq::<ItemView>::empty());
        assert(items_view(items@).take(0) =~= Seq::<ItemView>::empty());
    }
    while i < n
        invariant
            n == items@.len(),
            i <= n,
            items_view(out@) == active_items(items_view(items@).take(i as int)),
        decreases n - i,
    {
        let ghost iv = items_view(items@);
        let ghost prev = items_view(out@);
        let t = &items[i];
        if !t.completed {
            out.push(copy_todo(t));
            proof {
                assert(items_view(out@) =~= prev.push(iv[i as int]));
            }
        }
        proof {
            lemma_active_push(iv.take(i as int), iv[i as int]);
            assert(iv.take(i as int + 1) =~= iv.take(i as int).push(iv[i as int]));
        }
        i = i + 1;
    }
    proof {
        assert(items_view(items@).take(n as int) =~= items_view(items@));
    }
    out
}

} // verus!
