//! The state of the whole application and the decisions it takes on the events of a
//! frame: opening the editing window, saving or closing it, and the edits and
//! deletions asked for in the lists.

use crate::appointment::{is_new_for_window, AppointmentOrTask};
use crate::calendar::timestamp_in_range;
use crate::order::{
    index_set, is_stable_sort_by_init, lemma_stable_sort_members, lemma_unmarked_keeps_sorted, lemma_unmarked_members,
    lemma_unmarked_nothing, remove_marked, sort_by_init, sorted_by_init, unmarked,
};
use crate::viewer::MainWindowData;
use crate::window::{is_blank_window, is_loadable, shows, AppointmentWindowData, AppointmentWindowDataOutput};
use vstd::prelude::*;

verus! {

/// The application: the editing window, the week viewer and the three lists.
#[derive(Debug)]
pub struct CalendarAutomergeApp {
    pub awd: AppointmentWindowData,
    pub awd_open: bool,
    /// Index, in its list, of the entry the window edits; `None` for a new entry.
    pub awd_editing_idx: Option<usize>,
    pub mwd: MainWindowData,
    pub appointments: Vec<AppointmentOrTask>,
    pub tasks: Vec<AppointmentOrTask>,
    pub done_tasks: Vec<AppointmentOrTask>,
}

impl Default for CalendarAutomergeApp {
    fn default() -> (app: Self)
        ensures
            frame_invariant(app),
            is_blank_window(app.awd),
            !app.awd_open,
            app.awd_editing_idx is None,
            app.mwd.well_formed(),
            app.mwd.selected_main_init is None,
            app.mwd.selected_main_end is None,
            app.mwd.daytime_generated is None,
            app.appointments@.len() == 0,
            app.tasks@.len() == 0,
            app.done_tasks@.len() == 0,
    {
        CalendarAutomergeApp {
            awd: AppointmentWindowData::default(),
            awd_open: false,
            awd_editing_idx: None,
            mwd: MainWindowData::default(),
            appointments: Vec::new(),
            tasks: Vec::new(),
            done_tasks: Vec::new(),
        }
    }
}

/// `list` after the entry `aot` is saved into it: added at the end when it is new,
/// put in place of the entry at `idx` when it was edited.
pub open spec fn list_with(list: Seq<AppointmentOrTask>, idx: Option<usize>, aot: AppointmentOrTask) -> Seq<
    AppointmentOrTask,
> {
    match idx {
        None => list.push(aot),
        Some(i) => list.update(i as int, aot),
    }
}

/// The list an entry of the given kind goes in.
pub open spec fn list_of(app: CalendarAutomergeApp, is_task: bool) -> Seq<AppointmentOrTask> {
    if is_task {
        app.tasks@
    } else {
        app.appointments@
    }
}

/// An edit of the entry at `idx` of the list of the given kind can be shown.
pub open spec fn can_edit(app: CalendarAutomergeApp, idx: usize, is_task: bool) -> bool {
    idx < list_of(app, is_task).len() && is_loadable(list_of(app, is_task)[idx as int])
}

/// Every entry of `s` is a task when `is_task`, an appointment otherwise.
pub open spec fn all_of_kind(s: Seq<AppointmentOrTask>, is_task: bool) -> bool {
    forall|i: int| 0 <= i < s.len() ==> (#[trigger] s[i]).is_task == is_task
}

/// What holds of the application from one frame to the next: each list holds only
/// entries of its kind, both lists are ordered by start, and while the window edits an
/// entry its index lies within the list of the window's kind.
pub open spec fn frame_invariant(app: CalendarAutomergeApp) -> bool {
    &&& all_of_kind(app.tasks@, true)
    &&& all_of_kind(app.appointments@, false)
    &&& sorted_by_init(app.tasks@)
    &&& sorted_by_init(app.appointments@)
    &&& (app.awd_open && app.awd_editing_idx is Some) ==> app.awd_editing_idx->0 < list_of(app, app.awd.is_task).len()
}

/// A stable ordering of a list of one kind is of that kind.
proof fn lemma_sorted_kind(t: Seq<AppointmentOrTask>, s: Seq<AppointmentOrTask>, is_task: bool)
    requires
        is_stable_sort_by_init(t, s),
        all_of_kind(s, is_task),
    ensures
        all_of_kind(t, is_task),
{
    lemma_stable_sort_members(t, s);
    assert forall|i: int| 0 <= i < t.len() implies (#[trigger] t[i]).is_task == is_task by {
        assert(s.contains(t[i]));
    }
}

/// The entries left unmarked in a list of one kind, ordered by start, are of that
/// kind and ordered by start.
proof fn lemma_unmarked_kind(s: Seq<AppointmentOrTask>, marked: Set<int>, is_task: bool)
    requires
        all_of_kind(s, is_task),
        sorted_by_init(s),
    ensures
        all_of_kind(unmarked(s, marked), is_task),
        sorted_by_init(unmarked(s, marked)),
{
    lemma_unmarked_members(s, marked);
    lemma_unmarked_keeps_sorted(s, marked);
    let u = unmarked(s, marked);
    assert forall|i: int| 0 <= i < u.len() implies (#[trigger] u[i]).is_task == is_task by {
        assert(s.contains(u[i]));
    }
}

fn save_into(list: &mut Vec<AppointmentOrTask>, idx: Option<usize>, aot: AppointmentOrTask)
    requires
        idx matches Some(i) ==> i < old(list)@.len(),
    ensures
        is_stable_sort_by_init(final(list)@, list_with(old(list)@, idx, aot)),
{
    match idx {
        None => {
            list.push(aot);
        },
        Some(i) => {
            list.set(i, aot);
        },
    }
    sort_by_init(list);
}

impl CalendarAutomergeApp {
    /// Fills the editing window with the entry at `a_idx` of the list of the given
    /// kind, or with a new entry made now when `a_idx` is `None`, and remembers which
    /// entry it edits.
    pub fn appointment_window_set_data(&mut self, a_idx: Option<usize>, is_task: bool)
        requires
            a_idx matches Some(i) ==> can_edit(*old(self), i, is_task),
        ensures
            final(self).awd_editing_idx == a_idx,
            final(self).awd_open == old(self).awd_open,
            final(self).mwd == old(self).mwd,
            final(self).appointments == old(self).appointments,
            final(self).tasks == old(self).tasks,
            final(self).done_tasks == old(self).done_tasks,
            a_idx matches Some(i) ==> shows(final(self).awd, list_of(*old(self), is_task)[i as int]),
            a_idx is None ==> exists|aot: AppointmentOrTask|
                is_new_for_window(aot, is_task, aot.init as int) && timestamp_in_range(aot.init as int)
                    && #[trigger] shows(final(self).awd, aot),
    {
        let aot = match a_idx {
            None => AppointmentOrTask::new_for_window(is_task),
            Some(idx) => {
                if is_task {
                    self.tasks[idx].clone()
                } else {
                    self.appointments[idx].clone()
                }
            },
        };
        proof {
            crate::appointment::lemma_timestamp_small(aot.init as int);
        }
        let ghost shown = aot;
        self.awd_editing_idx = a_idx;
        self.awd.load(aot);
        assert(shows(self.awd, shown));
    }

    /// "Add appointment" / "Add task": opens the window on a new entry of that kind.
    pub fn open_new(&mut self, is_task: bool)
        ensures
            frame_invariant(*old(self)) ==> frame_invariant(*final(self)),
            final(self).awd_open,
            final(self).awd_editing_idx is None,
            final(self).mwd == old(self).mwd,
            final(self).appointments == old(self).appointments,
            final(self).tasks == old(self).tasks,
            final(self).done_tasks == old(self).done_tasks,
            exists|aot: AppointmentOrTask|
                is_new_for_window(aot, is_task, aot.init as int) && timestamp_in_range(aot.init as int)
                    && #[trigger] shows(final(self).awd, aot),
    {
        self.appointment_window_set_data(None, is_task);
        let ghost shown = choose|aot: AppointmentOrTask|
            is_new_for_window(aot, is_task, aot.init as int) && timestamp_in_range(aot.init as int)
                && #[trigger] shows(self.awd, aot);
        self.awd_open = true;
        assert(shows(self.awd, shown));
    }

    /// Title of the editing window.
    pub fn window_title(&self) -> (title: &'static str)
        ensures
            title@ == if self.awd_editing_idx is None {
                "New Appointment/Task"@
            } else {
                "Editing Appointment/Task"@
            },
    {
        if self.awd_editing_idx.is_none() {
            "New Appointment/Task"
        } else {
            "Editing Appointment/Task"
        }
    }

    /// Acts on what the editing window asked for: closing closes it; saving puts the
    /// entry in the list of its kind (at the end when new, in place of the edited one
    /// otherwise), orders that list by start and closes the window.
    pub fn handle_window_output(&mut self, result: AppointmentWindowDataOutput)
        requires
            result matches AppointmentWindowDataOutput::Saved(aot) ==> (old(self).awd_editing_idx matches Some(i)
                ==> i < list_of(*old(self), aot.is_task).len()),
        ensures
            frame_invariant(*old(self)) ==> frame_invariant(*final(self)),
            final(self).awd_editing_idx == old(self).awd_editing_idx,
            final(self).awd == old(self).awd,
            final(self).mwd == old(self).mwd,
            final(self).done_tasks == old(self).done_tasks,
            result is Open ==> *final(self) == *old(self),
            result is Closed ==> !final(self).awd_open && final(self).appointments == old(self).appointments
                && final(self).tasks == old(self).tasks,
            result matches AppointmentWindowDataOutput::Saved(aot) ==> {
                &&& !final(self).awd_open
                &&& is_stable_sort_by_init(
                    list_of(*final(self), aot.is_task),
                    list_with(list_of(*old(self), aot.is_task), old(self).awd_editing_idx, aot),
                )
                &&& list_of(*final(self), !aot.is_task) == list_of(*old(self), !aot.is_task)
            },
    {
        match result {
            AppointmentWindowDataOutput::Open => {},
            AppointmentWindowDataOutput::Closed => {
                self.awd_open = false;
            },
            AppointmentWindowDataOutput::Saved(aot) => {
                let ghost before = list_of(*self, aot.is_task);
                let ghost with = list_with(before, self.awd_editing_idx, aot);
                let ghost kind = aot.is_task;
                if aot.is_task {
                    save_into(&mut self.tasks, self.awd_editing_idx, aot);
                } else {
                    save_into(&mut self.appointments, self.awd_editing_idx, aot);
                }
                self.awd_open = false;
                proof {
                    if frame_invariant(*old(self)) {
                        assert(all_of_kind(with, kind));
                        lemma_sorted_kind(list_of(*self, kind), with, kind);
                    }
                }
            },
        }
    }

    /// Acts on the buttons of a list after a frame: an "Edit" opens the window on that
    /// entry, then the entries whose "Delete" was pressed (listed in increasing order)
    /// leave the list.
    pub fn apply_list_actions(&mut self, is_task: bool, edit_idx: Option<usize>, for_deletion: &Vec<usize>)
        requires
            edit_idx matches Some(i) ==> can_edit(*old(self), i, is_task),
            forall|a: int, b: int| 0 <= a < b < for_deletion@.len() ==> for_deletion@[a] < for_deletion@[b],
            forall|a: int| 0 <= a < for_deletion@.len() ==> for_deletion@[a] < list_of(*old(self), is_task).len(),
        ensures
            (frame_invariant(*old(self)) && !old(self).awd_open && (edit_idx is Some ==> for_deletion@.len() == 0))
                ==> frame_invariant(*final(self)),
            list_of(*final(self), is_task) == unmarked(list_of(*old(self), is_task), index_set(for_deletion@)),
            list_of(*final(self), !is_task) == list_of(*old(self), !is_task),
            final(self).done_tasks == old(self).done_tasks,
            final(self).mwd == old(self).mwd,
            edit_idx is None ==> final(self).awd == old(self).awd && final(self).awd_open == old(self).awd_open
                && final(self).awd_editing_idx == old(self).awd_editing_idx,
            edit_idx matches Some(i) ==> {
                &&& final(self).awd_open
                &&& final(self).awd_editing_idx == edit_idx
                &&& shows(final(self).awd, list_of(*old(self), is_task)[i as int])
            },
    {
        if edit_idx.is_some() {
            self.appointment_window_set_data(edit_idx, is_task);
            self.awd_open = true;
        }
        if is_task {
            remove_marked(&mut self.tasks, for_deletion);
        } else {
            remove_marked(&mut self.appointments, for_deletion);
        }
        proof {
            if frame_invariant(*old(self)) && !old(self).awd_open && (edit_idx is Some ==> for_deletion@.len()
                == 0) {
                lemma_unmarked_kind(list_of(*old(self), is_task), index_set(for_deletion@), is_task);
                if edit_idx is Some {
                    assert(for_deletion@ == Seq::<usize>::empty());
                    lemma_unmarked_nothing(list_of(*old(self), is_task));
                }
            }
        }
    }
}

} // verus!
