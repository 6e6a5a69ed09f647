//! A verified task-list engine.
//!
//! The engine owns an ordered list of tasks and the active filter tab, and
//! derives, for every user action, the next state and the data the view
//! layer should display.  It is split in two strictly layered components:
//!
//! - the store ([`Model`], [`Msg`], [`Model::dispatch`]): the authoritative
//!   state and its transition function, pinned by [`spec_dispatch`];
//! - the projector ([`project`], [`RenderModel`]): a pure function of the
//!   state that computes the filtered item list, the remaining-item count,
//!   and which bulk controls apply, pinned by [`spec_project`].
//!
//! Every transition is total: nonsensical actions (an absent id, blank text)
//! are silent no-ops, never errors.  The laws module proves the engine-wide
//! guarantees: ids stay pairwise distinct, no-ops leave the state untouched,
//! changing the tab never moves the remaining count, and bulk toggling twice
//! restores a uniformly completed or uncompleted list.

mod item;
mod laws;
mod render;
mod store;
mod text;

pub use item::active_items;
pub use item::all_done;
pub use item::completed_items;
pub use item::ids_below;
pub use item::ids_increasing;
pub use item::items_view;
pub use item::none_done;
pub use item::set_all;
pub use item::with_toggled;
pub use item::without_id;
pub use item::ItemView;
pub use item::Todo;
pub use laws::lemma_blank_add_noop;
pub use laws::lemma_change_filter_keeps_remaining;
pub use laws::lemma_remove_absent_noop;
pub use laws::lemma_toggle_absent_noop;
pub use laws::lemma_toggle_all_involution;
pub use laws::lemma_wf_ids_distinct;
pub use render::spec_project;
pub use render::visible_of;
pub use render::project;
pub use render::RenderModel;
pub use render::RenderView;
pub use store::initial_state;
pub use store::lemma_dispatch_preserves_wf;
pub use store::spec_dispatch;
pub use store::ActionView;
pub use store::Filter;
pub use store::Model;
pub use store::Msg;
pub use store::StateView;
pub use text::is_blank;
pub use text::spec_is_space;
