use todo_core::project;
use todo_core::Filter;
use todo_core::Model;
use todo_core::Msg;

fn add(m: Model, text: &str) -> Model {
    m.dispatch(Msg::AddItem(String::from(text)))
}

fn id_of(m: &Model, text: &str) -> u64 {
    for t in &m.items {
        if t.text == text {
            return t.id;
        }
    }
    panic!("no item with text {}", text);
}

/// Scenario: two additions from the empty store.
#[test]
fn two_items_in_insertion_order() {
    let m = Model::create();
    let m = add(m, "buy milk");
    let m = add(m, "walk dog");
    assert_eq!(m.items.len(), 2);
    assert_ne!(m.items[0].id, m.items[1].id);
    assert!(!m.items[0].completed);
    assert!(!m.items[1].completed);
    assert!(matches!(m.filter, Filter::All));
    let rm = project(&m);
    assert_eq!(rm.visible_items.len(), 2);
    assert_eq!(rm.visible_items[0].text, "buy milk");
    assert_eq!(rm.visible_items[1].text, "walk dog");
    assert_eq!(rm.remaining_count, 2);
}

/// Scenario: toggling one item, then viewing the active tab.
#[test]
fn active_filter_after_toggle() {
    let m = Model::create();
    let m = add(m, "buy milk");
    let m = add(m, "walk dog");
    let milk = id_of(&m, "buy milk");
    let m = m.dispatch(Msg::ToggleItem(milk));
    let m = m.dispatch(Msg::ChangeFilter(Filter::Active));
    let rm = project(&m);
    assert_eq!(rm.visible_items.len(), 1);
    assert_eq!(rm.visible_items[0].text, "walk dog");
    assert_eq!(rm.remaining_count, 1);
}

/// Scenario: a mixed list is first completed wholesale, then a second bulk
/// toggle un-completes everything.
#[test]
fn toggle_all_completes_then_reverts() {
    let m = Model::create();
    let m = add(m, "buy milk");
    let m = add(m, "walk dog");
    let milk = id_of(&m, "buy milk");
    let m = m.dispatch(Msg::ToggleItem(milk));
    let m = m.dispatch(Msg::ToggleAll);
    assert!(m.items.iter().all(|t| t.completed));
    assert_eq!(project(&m).remaining_count, 0);
    assert!(project(&m).all_completed);
    let m = m.dispatch(Msg::ToggleAll);
    assert!(m.items.iter().all(|t| !t.completed));
    assert_eq!(project(&m).remaining_count, 2);
}

/// On a list with uniform flags, two bulk toggles restore every flag.
#[test]
fn toggle_all_twice_restores_uniform_list() {
    let m = Model::create();
    let m = add(m, "one");
    let m = add(m, "two");
    let m = m.dispatch(Msg::ToggleAll);
    let m = m.dispatch(Msg::ToggleAll);
    assert!(m.items.iter().all(|t| !t.completed));
    let one = id_of(&m, "one");
    let m = m.dispatch(Msg::ToggleItem(one));
    let two = id_of(&m, "two");
    let m = m.dispatch(Msg::ToggleItem(two));
    let m = m.dispatch(Msg::ToggleAll);
    let m = m.dispatch(Msg::ToggleAll);
    assert!(m.items.iter().all(|t| t.completed));
}

/// Scenario: clearing removes exactly the completed items.
#[test]
fn clear_completed_removes_done() {
    let m = Model::create();
    let m = add(m, "buy milk");
    let m = add(m, "walk dog");
    let milk = id_of(&m, "buy milk");
    let m = m.dispatch(Msg::ToggleItem(milk));
    let m = m.dispatch(Msg::ClearCompleted);
    assert_eq!(m.items.len(), 1);
    assert_eq!(m.items[0].text, "walk dog");
    assert!(!m.items[0].completed);
}

/// Blank or empty text never becomes an item.
#[test]
fn blank_text_rejected() {
    let m = Model::create();
    let m = add(m, "   ");
    assert_eq!(m.items.len(), 0);
    let m = add(m, "");
    assert_eq!(m.items.len(), 0);
    let m = add(m, " \t\r\n ");
    assert_eq!(m.items.len(), 0);
    let m = add(m, "\u{00A0}\u{2003}");
    assert_eq!(m.items.len(), 0);
    let m = add(m, "  a  ");
    assert_eq!(m.items.len(), 1);
    assert_eq!(m.items[0].text, "  a  ");
}

/// Removing an absent id leaves the state structurally unchanged.
#[test]
fn remove_absent_id_is_noop() {
    let m = Model::create();
    let m = add(m, "buy milk");
    let before_id = m.items[0].id;
    let before_next = m.next_id;
    let m = m.dispatch(Msg::RemoveItem(before_id + 17));
    assert_eq!(m.items.len(), 1);
    assert_eq!(m.items[0].id, before_id);
    assert_eq!(m.items[0].text, "buy milk");
    assert!(!m.items[0].completed);
    assert_eq!(m.next_id, before_next);
}

/// Toggling an absent id leaves the state structurally unchanged.
#[test]
fn toggle_absent_id_is_noop() {
    let m = Model::create();
    let m = add(m, "buy milk");
    let m = m.dispatch(Msg::ToggleItem(999));
    assert_eq!(m.items.len(), 1);
    assert!(!m.items[0].completed);
}

/// Changing the tab never changes the remaining count, and touches no item.
#[test]
fn change_filter_keeps_remaining_count() {
    let m = Model::create();
    let m = add(m, "buy milk");
    let m = add(m, "walk dog");
    let milk = id_of(&m, "buy milk");
    let m = m.dispatch(Msg::ToggleItem(milk));
    let before = project(&m).remaining_count;
    let m = m.dispatch(Msg::ChangeFilter(Filter::Completed));
    assert_eq!(project(&m).remaining_count, before);
    assert_eq!(m.items.len(), 2);
    let m = m.dispatch(Msg::ChangeFilter(Filter::Active));
    assert_eq!(project(&m).remaining_count, before);
}

/// Projecting the same state twice yields equal render models.
#[test]
fn project_twice_is_equal() {
    let m = Model::create();
    let m = add(m, "buy milk");
    let m = add(m, "walk dog");
    let milk = id_of(&m, "buy milk");
    let m = m.dispatch(Msg::ToggleItem(milk));
    let a = project(&m);
    let b = project(&m);
    assert_eq!(a.remaining_count, b.remaining_count);
    assert_eq!(a.all_completed, b.all_completed);
    assert_eq!(a.has_any_items, b.has_any_items);
    assert_eq!(a.visible_items.len(), b.visible_items.len());
    for i in 0..a.visible_items.len() {
        assert_eq!(a.visible_items[i].id, b.visible_items[i].id);
        assert_eq!(a.visible_items[i].text, b.visible_items[i].text);
        assert_eq!(a.visible_items[i].completed, b.visible_items[i].completed);
    }
}

/// Ids stay pairwise distinct under interleaved removals: a removed id is
/// never handed out again.
#[test]
fn ids_distinct_after_interleaved_removals() {
    let m = Model::create();
    let m = add(m, "one");
    let removed = id_of(&m, "one");
    let m = add(m, "two");
    let m = m.dispatch(Msg::RemoveItem(removed));
    let m = add(m, "three");
    let m = add(m, "four");
    assert_eq!(m.items.len(), 3);
    for i in 0..m.items.len() {
        assert_ne!(m.items[i].id, removed);
        for j in 0..m.items.len() {
            if i != j {
                assert_ne!(m.items[i].id, m.items[j].id);
            }
        }
    }
}

/// The bulk toggle on an empty list is a harmless no-op.
#[test]
fn toggle_all_on_empty_is_noop() {
    let m = Model::create();
    let m = m.dispatch(Msg::ToggleAll);
    assert_eq!(m.items.len(), 0);
    assert_eq!(m.next_id, 0);
}

/// The projection of the empty store.
#[test]
fn project_empty_store() {
    let m = Model::create();
    let rm = project(&m);
    assert_eq!(rm.visible_items.len(), 0);
    assert_eq!(rm.remaining_count, 0);
    assert!(!rm.all_completed);
    assert!(!rm.has_any_items);
}

/// Toggling one id flips exactly that item.
#[test]
fn toggle_flips_only_the_target() {
    let m = Model::create();
    let m = add(m, "one");
    let m = add(m, "two");
    let m = add(m, "three");
    let two = id_of(&m, "two");
    let m = m.dispatch(Msg::ToggleItem(two));
    assert!(!m.items[0].completed);
    assert!(m.items[1].completed);
    assert!(!m.items[2].completed);
    let m = m.dispatch(Msg::ToggleItem(two));
    assert!(!m.items[1].completed);
}

/// Clearing keeps the survivors in their relative order.
#[test]
fn clear_completed_keeps_order() {
    let m = Model::create();
    let m = add(m, "one");
    let m = add(m, "two");
    let m = add(m, "three");
    let m = add(m, "four");
    let two = id_of(&m, "two");
    let m = m.dispatch(Msg::ToggleItem(two));
    let m = m.dispatch(Msg::ClearCompleted);
    assert_eq!(m.items.len(), 3);
    assert_eq!(m.items[0].text, "one");
    assert_eq!(m.items[1].text, "three");
    assert_eq!(m.items[2].text, "four");
}

/// The completed tab shows exactly the completed items.
#[test]
fn completed_filter_shows_done_items() {
    let m = Model::create();
    let m = add(m, "one");
    let m = add(m, "two");
    let one = id_of(&m, "one");
    let m = m.dispatch(Msg::ToggleItem(one));
    let m = m.dispatch(Msg::ChangeFilter(Filter::Completed));
    let rm = project(&m);
    assert_eq!(rm.visible_items.len(), 1);
    assert_eq!(rm.visible_items[0].text, "one");
    assert_eq!(rm.remaining_count, 1);
}

/// `all_completed` turns on exactly when a non-empty list is all done.
#[test]
fn all_completed_flag_tracks_items() {
    let m = Model::create();
    let m = add(m, "one");
    let m = add(m, "two");
    assert!(!project(&m).all_completed);
    let one = id_of(&m, "one");
    let m = m.dispatch(Msg::ToggleItem(one));
    assert!(!project(&m).all_completed);
    let two = id_of(&m, "two");
    let m = m.dispatch(Msg::ToggleItem(two));
    assert!(project(&m).all_completed);
}
