//! The action dispatcher: the single owner of the record store and the
//! live-window table.
//!
//! Every mutating operation a management UI can issue arrives here as one
//! [`AppAction`] and is processed to completion before the next, which is
//! the system's only concurrency mechanism.  File writes and window
//! creation are carried out by the surrounding process within the same
//! turn; their outcomes come in as a [`CollaboratorReport`], and everything
//! the process still has to carry out afterwards goes back out as
//! [`Effect`] values, in order.

use vstd::prelude::*;

use crate::controller::{names_unique, table_has, table_remove, WindowState};
use crate::layout_config::{file_name_of, LayoutConfig};
use crate::store::{
    has_file, keys_unique, records_of, store_remove, store_upsert, stored_record, Store,
};

verus! {

/// The values of the detail form as the UI hands them over on save; the
/// dispatcher merges them into the selected record.  The form has no
/// `active` switch — toggling is its own action.
pub struct FormState {
    pub name: String,
    pub url: String,
    pub x: i32,
    pub y: i32,
    pub width: i32,
    pub height: i32,
    pub clickthrough: bool,
    pub decorated: bool,
}

/// One user intent, queued by the UI and consumed by the dispatcher in
/// submission order.
pub enum AppAction {
    /// Push an empty record to the detail view; nothing is persisted.
    NewOverlay,
    /// List every stored record and push the result to the UI.
    LoadOverlaysList,
    /// Push one record to the detail view.
    SelectOverlay(LayoutConfig),
    /// Put the overlay on screen (`true`) or take it down (`false`), then
    /// persist the new `active` state.
    ToggleOverlay(bool, LayoutConfig),
    /// Merge the form into the record, persist it, and reconcile the
    /// window with the saved properties.
    SaveOverlay(LayoutConfig, FormState),
    /// Close the overlay's window if it is open, then remove its file.
    DeleteOverlay(LayoutConfig),
}

/// What the collaborators reported while the caller prepared the current
/// action: whether the window it asked the display system for came up, and
/// whether the record file it wrote reached the disk.
pub struct CollaboratorReport {
    pub window_created: bool,
    pub write_ok: bool,
}

/// An operation the surrounding process has to carry out once a dispatch
/// returns, in the order given.  None of them can fail in a way the
/// dispatcher would need to hear about: a close signal is best effort, a
/// failed file removal is logged, the rest is presentation.
pub enum Effect {
    /// Signal the close channel of the window registered under `name`.
    CloseWindow { name: String },
    /// Remove the record file called `file_name`; log a failure and go on.
    RemoveFile { file_name: String },
    /// Render `records` as the overlay list.
    RefreshList { records: Vec<LayoutConfig> },
    /// Fill the detail view from `record`.
    ShowDetails { record: LayoutConfig },
    /// Show `message` in a non-blocking error dialog.
    ShowError { message: String },
}

/// `e` closes the window registered under `name`.
pub open spec fn is_close_window(e: Effect, name: Seq<char>) -> bool {
    e is CloseWindow && e->name@ == name
}

/// `e` removes the file called `f`.
pub open spec fn is_remove_file(e: Effect, f: Seq<char>) -> bool {
    e is RemoveFile && e->file_name@ == f
}

/// `e` renders exactly `rs` as the overlay list.
pub open spec fn is_refresh_list(e: Effect, rs: Seq<LayoutConfig>) -> bool {
    e is RefreshList && e->records@ == rs
}

/// `e` fills the detail view from `r`.
pub open spec fn is_show_details(e: Effect, r: LayoutConfig) -> bool {
    e is ShowDetails && e->record == r
}

/// `e` reports `msg` in an error dialog.
pub open spec fn is_show_error(e: Effect, msg: Seq<char>) -> bool {
    e is ShowError && e->message@ == msg
}

/// `r` with its desired on-screen state set to `b`.
pub open spec fn with_active(r: LayoutConfig, b: bool) -> LayoutConfig {
    LayoutConfig { active: b, ..r }
}

/// The record a save persists: every form field over the old record, with
/// the `active` state kept.
pub open spec fn merged_record(r: LayoutConfig, f: FormState) -> LayoutConfig {
    LayoutConfig {
        name: f.name,
        url: f.url,
        x: f.x,
        y: f.y,
        width: f.width,
        height: f.height,
        clickthrough: f.clickthrough,
        decorated: f.decorated,
        active: r.active,
    }
}

/// The live-window table after an open of `name` whose creation the
/// display system answered with `created`: registered only when the name
/// was free and the window came up.
pub open spec fn table_after_open(t: Seq<Seq<char>>, name: Seq<char>, created: bool) -> Seq<
    Seq<char>,
> {
    if table_has(t, name) || !created {
        t
    } else {
        t.push(name)
    }
}

/// The store after `r` is persisted, when the disk write went through;
/// unchanged when it did not.
pub open spec fn store_after_persist(
    m: Seq<(Seq<char>, LayoutConfig)>,
    r: LayoutConfig,
    write_ok: bool,
) -> Seq<(Seq<char>, LayoutConfig)> {
    if write_ok {
        store_upsert(m, file_name_of(r.name@), r)
    } else {
        m
    }
}

/// The live-window table after a save's reconcile pass: a window open
/// under the old name is closed and a fresh one is opened under the new
/// name — window properties are never mutated in place; a record without
/// a window keeps none.
pub open spec fn table_after_reconcile(
    t: Seq<Seq<char>>,
    old_name: Seq<char>,
    new_name: Seq<char>,
    created: bool,
) -> Seq<Seq<char>> {
    if table_has(t, old_name) {
        table_after_open(table_remove(t, old_name), new_name, created)
    } else {
        t
    }
}

/// The store after a save: the merged record under its derived file name,
/// and the old file gone when the name change moved the record to a new
/// file.
pub open spec fn store_after_update(
    m: Seq<(Seq<char>, LayoutConfig)>,
    old_r: LayoutConfig,
    merged: LayoutConfig,
) -> Seq<(Seq<char>, LayoutConfig)> {
    let m1 = store_upsert(m, file_name_of(merged.name@), merged);
    if file_name_of(old_r.name@) != file_name_of(merged.name@) {
        store_remove(m1, file_name_of(old_r.name@))
    } else {
        m1
    }
}

/// The records that have to be resumed at startup: those stored with
/// `active` set, in store order.
pub open spec fn active_records(m: Seq<(Seq<char>, LayoutConfig)>) -> Seq<LayoutConfig> {
    records_of(m).filter(|r: LayoutConfig| r.active)
}

/// Everything a toggle leaves behind.  The window side follows the new
/// state and the display system's answer; the store side persists the
/// record with `active` set to the new state when the write went through.
/// Failures surface only as dialogs: an open that failed, then a write
/// that failed, in that order after any close signal.
pub open spec fn toggle_post(
    pre: App,
    post: App,
    on: bool,
    r: LayoutConfig,
    created: bool,
    write_ok: bool,
    effects: Seq<Effect>,
) -> bool {
    let open_err: int = if on && !table_has(pre.state@, r.name@) && !created {
        1
    } else {
        0
    };
    let close_fx: int = if !on && table_has(pre.state@, r.name@) {
        1
    } else {
        0
    };
    let write_err: int = if !write_ok {
        1
    } else {
        0
    };
    &&& post.store@ == store_after_persist(pre.store@, with_active(r, on), write_ok)
    &&& post.state@ == (if on {
        table_after_open(pre.state@, r.name@, created)
    } else {
        table_remove(pre.state@, r.name@)
    })
    &&& effects.len() == open_err + close_fx + write_err
    &&& (open_err == 1 ==> is_show_error(effects[0], "Could not create the overlay window !"@))
    &&& (close_fx == 1 ==> is_close_window(effects[0], r.name@))
    &&& (write_err == 1 ==> is_show_error(
        effects[open_err + close_fx],
        "Could not save the overlay !"@,
    ))
}

/// Everything a save leaves behind.  A failed write changes nothing and
/// only reports.  A successful one reconciles the window (close the old,
/// open a fresh one under the saved name — never an in-place property
/// change), stores the merged record under its derived file name, removes
/// the old file only when the rename moved the record to a new one, and
/// re-selects the merged record.
pub open spec fn save_post(
    pre: App,
    post: App,
    r: LayoutConfig,
    f: FormState,
    write_ok: bool,
    created: bool,
    effects: Seq<Effect>,
) -> bool {
    let merged = merged_record(r, f);
    let was_open = table_has(pre.state@, r.name@);
    let renamed = file_name_of(f.name@) != file_name_of(r.name@);
    if !write_ok {
        &&& post.store@ == pre.store@
        &&& post.state@ == pre.state@
        &&& effects.len() == 1
        &&& is_show_error(effects[0], "Could not save the overlay !"@)
    } else {
        let n_close: int = if was_open {
            1
        } else {
            0
        };
        let n_err: int = if was_open && !table_has(table_remove(pre.state@, r.name@), f.name@)
            && !created {
            1
        } else {
            0
        };
        let n_rm: int = if renamed {
            1
        } else {
            0
        };
        &&& post.store@ == store_after_update(pre.store@, r, merged)
        &&& post.state@ == table_after_reconcile(pre.state@, r.name@, f.name@, created)
        &&& effects.len() == n_close + n_err + n_rm + 1
        &&& (n_close == 1 ==> is_close_window(effects[0], r.name@))
        &&& (n_err == 1 ==> is_show_error(
            effects[n_close],
            "Could not create the overlay window !"@,
        ))
        &&& (n_rm == 1 ==> is_remove_file(effects[n_close + n_err], file_name_of(r.name@)))
        &&& is_show_details(effects[n_close + n_err + n_rm], merged)
    }
}

/// Everything a delete leaves behind: the window closed first — and kept
/// closed whatever the file removal reports — then the record's file
/// removed from the store and scheduled for removal on disk.
pub open spec fn delete_post(pre: App, post: App, r: LayoutConfig, effects: Seq<Effect>) -> bool {
    let n_close: int = if table_has(pre.state@, r.name@) {
        1
    } else {
        0
    };
    &&& post.state@ == table_remove(pre.state@, r.name@)
    &&& post.store@ == store_remove(pre.store@, file_name_of(r.name@))
    &&& effects.len() == n_close + 1
    &&& (n_close == 1 ==> is_close_window(effects[0], r.name@))
    &&& is_remove_file(effects[n_close], file_name_of(r.name@))
}

/// A record as the "new overlay" action presents it: all fields blank.
pub open spec fn is_blank_record(r: LayoutConfig) -> bool {
    &&& r.name@ == Seq::<char>::empty()
    &&& r.url@ == Seq::<char>::empty()
    &&& r.x == 0 && r.y == 0 && r.width == 0 && r.height == 0
    &&& !r.clickthrough && !r.decorated && !r.active
}

/// An open keeps the table's names pairwise distinct — a name is pushed
/// only when it is not there yet — and a confirmed open leaves the name
/// registered.
pub proof fn lemma_open_keeps_unique(t: Seq<Seq<char>>, n: Seq<char>, created: bool)
    requires
        names_unique(t),
    ensures
        names_unique(table_after_open(t, n, created)),
        created ==> table_has(table_after_open(t, n, created), n),
{
    let t2 = table_after_open(t, n, created);
    if !table_has(t, n) && created {
        assert forall|p: int, q: int| 0 <= p < q < t2.len() implies t2[p] != t2[q] by {
            if q < t.len() {
                assert(t[p] != t[q]);
            } else {
                assert(t[p] != n);
            }
        }
        assert(t2[t.len() as int] == n);
    }
}

/// Toggling an overlay on and then off leaves no window registered under
/// its name, and leaves its record stored with `active` off.  Both writes
/// are taken to have reached the disk — that is what the item describes —
/// while the display system may have answered either way.
pub proof fn lemma_toggle_round_trip(
    m: Seq<(Seq<char>, LayoutConfig)>,
    t: Seq<Seq<char>>,
    r: LayoutConfig,
    created: bool,
)
    requires
        keys_unique(m),
        names_unique(t),
    ensures
        ({
            let m1 = store_after_persist(m, with_active(r, true), true);
            let t1 = table_after_open(t, r.name@, created);
            let m2 = store_after_persist(m1, with_active(r, false), true);
            let t2 = table_remove(t1, r.name@);
            &&& !table_has(t2, r.name@)
            &&& has_file(m2, file_name_of(r.name@))
            &&& stored_record(m2, file_name_of(r.name@)) == with_active(r, false)
            &&& stored_record(m2, file_name_of(r.name@)).active == false
        }),
{
    let f = file_name_of(r.name@);
    let m1 = store_after_persist(m, with_active(r, true), true);
    let t1 = table_after_open(t, r.name@, created);
    crate::store::lemma_upsert_stored(m, f, with_active(r, true));
    crate::store::lemma_upsert_stored(m1, f, with_active(r, false));
    lemma_open_keeps_unique(t, r.name@, created);
    crate::controller::lemma_close_closes(t1, r.name@);
}

/// Renaming a record via save — with the write on disk and, where one was
/// needed, the fresh window up — leaves no file under the old name, the
/// merged record under the new name, and, where a window was open under
/// the old name, a window registered under the new name and none under
/// the old: never both.  A rename whose two names derive the same file
/// name (say, only letter case changed) keeps a single file and is not
/// covered here.
pub proof fn lemma_save_renames(
    m: Seq<(Seq<char>, LayoutConfig)>,
    t: Seq<Seq<char>>,
    old_r: LayoutConfig,
    f: FormState,
    created: bool,
)
    requires
        keys_unique(m),
        names_unique(t),
        file_name_of(f.name@) != file_name_of(old_r.name@),
        created,
    ensures
        ({
            let merged = merged_record(old_r, f);
            let m2 = store_after_update(m, old_r, merged);
            let t2 = table_after_reconcile(t, old_r.name@, f.name@, created);
            &&& !has_file(m2, file_name_of(old_r.name@))
            &&& has_file(m2, file_name_of(f.name@))
            &&& stored_record(m2, file_name_of(f.name@)) == merged
            &&& !table_has(t2, old_r.name@)
            &&& table_has(t, old_r.name@) ==> table_has(t2, f.name@)
        }),
{
    let merged = merged_record(old_r, f);
    let file_a = file_name_of(old_r.name@);
    let file_b = file_name_of(f.name@);
    let m1 = store_upsert(m, file_b, merged);
    crate::store::lemma_upsert_stored(m, file_b, merged);
    crate::store::lemma_remove_removes(m1, file_a);
    crate::store::lemma_remove_keeps(m1, file_a, file_b);
    assert(old_r.name@ != f.name@);
    if table_has(t, old_r.name@) {
        crate::controller::lemma_close_closes(t, old_r.name@);
        let t1 = table_remove(t, old_r.name@);
        let t2 = table_after_open(t1, f.name@, created);
        lemma_open_keeps_unique(t1, f.name@, created);
        assert forall|k: int| 0 <= k < t2.len() implies t2[k] != old_r.name@ by {
            if k < t1.len() {
                assert(t1[k] != old_r.name@);
            }
        }
    }
}

/// The dispatcher's state: the record store and the live-window table,
/// owned by it alone and touched only from within an action's turn.
pub struct App {
    pub store: Store,
    pub state: WindowState,
}

impl App {
    /// Both owned components satisfy their invariants.
    pub open spec fn wf(&self) -> bool {
        self.store.wf() && self.state.wf()
    }

    /// A dispatcher over the given store, with no window on screen yet.
    pub fn new(store: Store) -> (a: App)
        requires
            store.wf(),
        ensures
            a.store == store,
            a.state@ == Seq::<Seq<char>>::empty(),
            a.wf(),
    {
        App { store, state: WindowState::new() }
    }

    /// The merged record a save would persist for this record and form.
    pub fn merge_form(overlay: &LayoutConfig, form: &FormState) -> (r: LayoutConfig)
        ensures
            r == merged_record(*overlay, *form),
    {
        LayoutConfig {
            name: form.name.clone(),
            url: form.url.clone(),
            x: form.x,
            y: form.y,
            width: form.width,
            height: form.height,
            clickthrough: form.clickthrough,
            decorated: form.decorated,
            active: overlay.active,
        }
    }

    /// Lists every stored record for the UI.
    pub fn load_overlays_list(&self) -> (effects: Vec<Effect>)
        ensures
            effects@.len() == 1,
            is_refresh_list(effects@[0], records_of(self.store@)),
    {
        let records = self.store.list_all();
        let mut effects: Vec<Effect> = Vec::new();
        effects.push(Effect::RefreshList { records });
        effects
    }

    /// Pushes one record to the detail view.
    pub fn display_overlay_details(&self, overlay: &LayoutConfig) -> (effects: Vec<Effect>)
        ensures
            effects@.len() == 1,
            is_show_details(effects@[0], *overlay),
    {
        let mut effects: Vec<Effect> = Vec::new();
        effects.push(Effect::ShowDetails { record: overlay.duplicate() });
        effects
    }

    /// Puts a blank record in front of the user; nothing is persisted
    /// until the first save.
    pub fn new_overlay(&self) -> (effects: Vec<Effect>)
        ensures
            effects@.len() == 1,
            effects@[0] is ShowDetails,
            is_blank_record(effects@[0]->record),
    {
        let mut effects: Vec<Effect> = Vec::new();
        effects.push(Effect::ShowDetails { record: LayoutConfig::default() });
        effects
    }

    /// The records whose overlays have to come back on screen at startup.
    pub fn active_overlays(&self) -> (r: Vec<LayoutConfig>)
        ensures
            r@ == active_records(self.store@),
    {
        let all = self.store.list_all();
        let mut r: Vec<LayoutConfig> = Vec::new();
        proof {
            reveal(Seq::filter);
            assert(all@.take(0) =~= Seq::<LayoutConfig>::empty());
            assert(r@ =~= all@.take(0).filter(|x: LayoutConfig| x.active));
        }
        let mut i: usize = 0;
        while i < all.len()
            invariant
                0 <= i <= all@.len(),
                r@ == all@.take(i as int).filter(|x: LayoutConfig| x.active),
            decreases all@.len() - i,
        {
            proof {
                reveal(Seq::filter);
                assert(all@.take(i + 1).drop_last() =~= all@.take(i as int));
                assert(all@.take(i + 1).last() == all@[i as int]);
            }
            if all[i].is_active() {
                r.push(all[i].duplicate());
            }
            i = i + 1;
        }
        proof {
            assert(all@.take(all@.len() as int) =~= all@);
        }
        r
    }

    /// Registers the overlay's window after the display system was asked
    /// for it.  A window already registered under the name is left alone —
    /// the guard against a double open; a window that did not come up
    /// leaves the table unchanged and only reports the failure.
    pub fn open_overlay(&mut self, overlay: &LayoutConfig, created: bool) -> (effects: Vec<
        Effect,
    >)
        requires
            old(self).wf(),
        ensures
            final(self).store@ == old(self).store@,
            final(self).state@ == table_after_open(old(self).state@, overlay.name@, created),
            final(self).wf(),
            effects@.len() == (if !table_has(old(self).state@, overlay.name@) && !created {
                1int
            } else {
                0int
            }),
            effects@.len() == 1 ==> is_show_error(
                effects@[0],
                "Could not create the overlay window !"@,
            ),
    {
        let mut effects: Vec<Effect> = Vec::new();
        if self.state.is_open(&overlay.name) {
            // double-open guard: the live window keeps its registration
        } else if created {
            self.state.register(&overlay.name);
        } else {
            effects.push(
                Effect::ShowError {
                    message: "Could not create the overlay window !".to_owned(),
                },
            );
        }
        effects
    }

    /// Takes the overlay's window out of the table and signals its close
    /// channel.  Closing an overlay that is not open is a no-op, not an
    /// error.
    pub fn close_overlay(&mut self, overlay: &LayoutConfig) -> (effects: Vec<Effect>)
        requires
            old(self).wf(),
        ensures
            final(self).store@ == old(self).store@,
            final(self).state@ == table_remove(old(self).state@, overlay.name@),
            final(self).wf(),
            effects@.len() == (if table_has(old(self).state@, overlay.name@) {
                1int
            } else {
                0int
            }),
            effects@.len() == 1 ==> is_close_window(effects@[0], overlay.name@),
    {
        let mut effects: Vec<Effect> = Vec::new();
        let was_open = self.state.close(&overlay.name);
        if was_open {
            effects.push(Effect::CloseWindow { name: overlay.name.clone() });
        }
        effects
    }

    /// Puts the overlay on screen or takes it down, then persists the new
    /// `active` state.  `created` is the display system's answer where a
    /// window was asked for; `write_ok` is the file system's answer for
    /// the persisted record.
    pub fn toggle_overlay(
        &mut self,
        new_state: bool,
        overlay: &LayoutConfig,
        created: bool,
        write_ok: bool,
    ) -> (effects: Vec<Effect>)
        requires
            old(self).wf(),
        ensures
            final(self).wf(),
            toggle_post(
                *old(self),
                *final(self),
                new_state,
                *overlay,
                created,
                write_ok,
                effects@,
            ),
    {
        let mut effects: Vec<Effect> = if new_state {
            self.open_overlay(overlay, created)
        } else {
            self.close_overlay(overlay)
        };
        let mut persisted = overlay.duplicate();
        persisted.set_active(new_state);
        if write_ok {
            self.store.save(&persisted);
        } else {
            effects.push(
                Effect::ShowError { message: "Could not save the overlay !".to_owned() },
            );
        }
        effects
    }

    /// Merges the form into the record and persists it.  The caller wrote
    /// the merged record's file before the call and reports the outcome in
    /// `write_ok`; where the window had to be recreated, `created` is the
    /// display system's answer for the fresh window.
    pub fn save_overlay(
        &mut self,
        overlay: &LayoutConfig,
        form: &FormState,
        write_ok: bool,
        created: bool,
    ) -> (effects: Vec<Effect>)
        requires
            old(self).wf(),
        ensures
            final(self).wf(),
            save_post(*old(self), *final(self), *overlay, *form, write_ok, created, effects@),
    {
        let merged = App::merge_form(overlay, form);
        if !write_ok {
            let mut effects: Vec<Effect> = Vec::new();
            effects.push(
                Effect::ShowError { message: "Could not save the overlay !".to_owned() },
            );
            return effects;
        }
        let was_open = self.state.is_open(&overlay.name);
        let mut effects = self.close_overlay(overlay);
        if was_open {
            let mut reopened = self.open_overlay(&merged, created);
            effects.append(&mut reopened);
        }
        let old_file = overlay.get_file_name();
        let new_file = merged.get_file_name();
        let renamed = !(old_file == new_file);
        self.store.save(&merged);
        if renamed {
            self.store.delete(&old_file);
            effects.push(Effect::RemoveFile { file_name: old_file });
        }
        effects.push(Effect::ShowDetails { record: merged });
        effects
    }

    /// Closes the overlay's window if one is open — and only then — and
    /// removes its file.  A removal the disk refuses is logged by the
    /// caller and changes nothing here: the window stays closed.
    pub fn delete_overlay(&mut self, overlay: &LayoutConfig) -> (effects: Vec<Effect>)
        requires
            old(self).wf(),
        ensures
            final(self).wf(),
            delete_post(*old(self), *final(self), *overlay, effects@),
    {
        let mut effects = self.close_overlay(overlay);
        let file_name = overlay.get_file_name();
        self.store.delete(&file_name);
        effects.push(Effect::RemoveFile { file_name });
        effects
    }

    /// Processes one queued action to completion.  The caller performed
    /// the action's outside work — the file write and the display call the
    /// action calls for — within this same turn and hands the outcomes
    /// over in `report`; the fields are ignored by actions that need no
    /// such work.
    pub fn dispatch(&mut self, action: AppAction, report: &CollaboratorReport) -> (effects: Vec<
        Effect,
    >)
        requires
            old(self).wf(),
        ensures
            final(self).wf(),
            action is NewOverlay ==> {
                &&& final(self).store@ == old(self).store@
                &&& final(self).state@ == old(self).state@
                &&& effects@.len() == 1
                &&& effects@[0] is ShowDetails
                &&& is_blank_record(effects@[0]->record)
            },
            action is LoadOverlaysList ==> {
                &&& final(self).store@ == old(self).store@
                &&& final(self).state@ == old(self).state@
                &&& effects@.len() == 1
                &&& is_refresh_list(effects@[0], records_of(old(self).store@))
            },
            action matches AppAction::SelectOverlay(overlay) ==> {
                &&& final(self).store@ == old(self).store@
                &&& final(self).state@ == old(self).state@
                &&& effects@.len() == 1
                &&& is_show_details(effects@[0], overlay)
            },
            action matches AppAction::ToggleOverlay(new_state, overlay) ==> toggle_post(
                *old(self),
                *final(self),
                new_state,
                overlay,
                report.window_created,
                report.write_ok,
                effects@,
            ),
            action matches AppAction::SaveOverlay(overlay, form) ==> save_post(
                *old(self),
                *final(self),
                overlay,
                form,
                report.write_ok,
                report.window_created,
                effects@,
            ),
            action matches AppAction::DeleteOverlay(overlay) ==> delete_post(
                *old(self),
                *final(self),
                overlay,
                effects@,
            ),
    {
        match action {
            AppAction::NewOverlay => self.new_overlay(),
            AppAction::LoadOverlaysList => self.load_overlays_list(),
            AppAction::SelectOverlay(overlay) => self.display_overlay_details(&overlay),
            AppAction::ToggleOverlay(new_state, overlay) => self.toggle_overlay(
                new_state,
                &overlay,
                report.window_created,
                report.write_ok,
            ),
            AppAction::SaveOverlay(overlay, form) => self.save_overlay(
                &overlay,
                &form,
                report.write_ok,
                report.window_created,
            ),
            AppAction::DeleteOverlay(overlay) => self.delete_overlay(&overlay),
        }
    }

    /// Closes every window at shutdown, handing back one close signal per
    /// registered window, in table order.
    pub fn close_all(&mut self) -> (effects: Vec<Effect>)
        ensures
            final(self).store@ == old(self).store@,
            final(self).state@ == Seq::<Seq<char>>::empty(),
            effects@.len() == old(self).state@.len(),
            forall|i: int| 0 <= i < effects@.len() ==> is_close_window(
                effects@[i],
                old(self).state@[i],
            ),
    {
        let names = self.state.close_all();
        let mut effects: Vec<Effect> = Vec::new();
        let mut i: usize = 0;
        while i < names.len()
            invariant
                0 <= i <= names@.len(),
                names@.map_values(|s: String| s@) == old(self).state@,
                effects@.len() == i,
                forall|j: int| 0 <= j < i ==> is_close_window(effects@[j], old(self).state@[j]),
            decreases names@.len() - i,
        {
            effects.push(Effect::CloseWindow { name: names[i].clone() });
            i = i + 1;
        }
        effects
    }
}

} // verus!
