//! Editing settings apart from the autosaved learning record: a draft that
//! survives autosaves, merges with preferences changed elsewhere, and is
//! never committed without an explicit choice.
use vstd::prelude::*;
use crate::distinct::{same_texts, texts_equal};
use crate::notify::Page;

verus! {

/// The merge of one field: the draft's value where the draft changed it
/// from the baseline, otherwise the current value.
pub open spec fn merged_field(base: String, draft: String, current: String) -> Seq<char> {
    if draft@ != base@ {
        draft@
    } else {
        current@
    }
}

/// Merges an edited draft into the current settings. The settings are given
/// field by field, each as its serialized value, in the same field order.
pub fn merge_settings(base: &Vec<String>, draft: &Vec<String>, current: &Vec<String>) -> (r: Vec<
    String,
>)
    requires
        base@.len() == draft@.len(),
        draft@.len() == current@.len(),
    ensures
        r@.len() == current@.len(),
        forall|i: int|
            0 <= i < r@.len() ==> (#[trigger] r@[i])@ == merged_field(base@[i], draft@[i], current@[i]),
{
    let mut out: Vec<String> = Vec::new();
    let mut i: usize = 0;
    while i < current.len()
        invariant
            base@.len() == draft@.len(),
            draft@.len() == current@.len(),
            i <= current@.len(),
            out@.len() == i,
            forall|j: int|
                0 <= j < i ==> (#[trigger] out@[j])@ == merged_field(base@[j], draft@[j], current@[j]),
        decreases current@.len() - i,
    {
        if !(draft[i] == base[i]) {
            out.push(draft[i].clone());
        } else {
            out.push(current[i].clone());
        }
        i = i + 1;
    }
    out
}

/// Where the user wanted to go when unsaved settings stopped them.
#[derive(Clone, Copy, Debug, PartialEq, Eq, Structural)]
pub enum Destination {
    Page(Page),
    Close,
}

/// What the user chose to do with unsaved settings before leaving.
#[derive(Clone, Copy, Debug, PartialEq, Eq, Structural)]
pub enum LeaveChoice {
    SaveAndGo,
    DiscardAndGo,
    KeepEditing,
}

/// The state of the settings form.
pub struct SettingsEditor {
    /// The values shown in the form.
    pub draft: Vec<String>,
    /// The settings the draft was started from.
    pub baseline: Vec<String>,
    /// Whether the form is being edited.
    pub active: bool,
    /// Where to go once the user has chosen what to do with unsaved changes.
    pub leave: Option<Destination>,
    /// The error of the last failed save.
    pub error: Option<String>,
    /// Whether the form is previewing speech.
    pub preview_speech: bool,
    /// Whether the display size must be reset to the saved one.
    pub reset_view: bool,
    /// Whether the zoom control is open.
    pub zoom_open: bool,
}

impl SettingsEditor {
    /// The settings the draft was started from.
    pub open spec fn baseline_spec(&self) -> Seq<String> {
        self.baseline@
    }

    /// The draft and the baseline have one value per field.
    pub open spec fn inv(&self, fields: nat) -> bool {
        self.draft@.len() == fields && self.baseline_spec().len() == fields
    }

    /// A form not being edited.
    pub fn new() -> (r: SettingsEditor)
        ensures
            !r.active,
            r.leave is None,
            r.error is None,
            !r.preview_speech,
            !r.reset_view,
            !r.zoom_open,
            r.draft@.len() == 0,
            r.baseline_spec().len() == 0,
    {
        SettingsEditor {
            draft: Vec::new(),
            baseline: Vec::new(),
            active: false,
            leave: None,
            error: None,
            preview_speech: false,
            reset_view: false,
            zoom_open: false,
        }
    }

    /// The settings the draft was started from.
    pub fn baseline(&self) -> (r: &Vec<String>)
        ensures
            r@ == self.baseline_spec(),
    {
        &self.baseline
    }

    /// Starts editing from the current settings, or, while editing, takes in
    /// the preferences changed elsewhere (such as playback volume) without
    /// losing the draft's own changes.
    pub fn begin(&mut self, current: &Vec<String>)
        requires
            old(self).active ==> old(self).inv(current@.len()),
        ensures
            final(self).inv(current@.len()),
            final(self).active,
            same_texts(final(self).baseline_spec(), current@),
            !old(self).active ==> same_texts(final(self).draft@, current@),
            old(self).active && same_texts(old(self).baseline_spec(), current@) ==> final(self).draft
                == old(self).draft,
            old(self).active ==> forall|i: int|
                0 <= i < current@.len() ==> (#[trigger] final(self).draft@[i])@ == merged_field(
                    old(self).baseline_spec()[i],
                    old(self).draft@[i],
                    current@[i],
                ),
            final(self).leave == old(self).leave,
            final(self).error == old(self).error,
            final(self).preview_speech == old(self).preview_speech,
            final(self).reset_view == old(self).reset_view,
            final(self).zoom_open == old(self).zoom_open,
    {
        if !self.active {
            self.draft = clone_texts(current);
            self.baseline = clone_texts(current);
            self.active = true;
        } else if !texts_equal(&self.baseline, current) {
            self.draft = merge_settings(&self.baseline, &self.draft, current);
            self.baseline = clone_texts(current);
        } else {
            proof {
                assert forall|i: int| 0 <= i < current@.len() implies (
                #[trigger] self.draft@[i])@ == merged_field(
                    self.baseline@[i],
                    self.draft@[i],
                    current@[i],
                ) by {
                    assert(self.baseline@[i]@ == current@[i]@);
                }
            }
        }
    }

    /// Whether the draft differs from the settings it started from.
    pub fn changed(&self) -> (r: bool)
        ensures
            r == (self.active && !same_texts(self.draft@, self.baseline_spec())),
    {
        self.active && !texts_equal(&self.draft, &self.baseline)
    }

    /// The settings to save: the draft merged into the current settings.
    pub fn to_save(&self, current: &Vec<String>) -> (r: Vec<String>)
        requires
            self.inv(current@.len()),
        ensures
            r@.len() == current@.len(),
            forall|i: int|
                0 <= i < r@.len() ==> (#[trigger] r@[i])@ == merged_field(
                    self.baseline_spec()[i],
                    self.draft@[i],
                    current@[i],
                ),
    {
        merge_settings(&self.baseline, &self.draft, current)
    }

    /// After a successful save, the saved settings become both the draft and
    /// the baseline. A failed save calls nothing here, so the draft stays.
    pub fn committed(&mut self, saved: &Vec<String>)
        ensures
            same_texts(final(self).draft@, saved@),
            same_texts(final(self).baseline_spec(), saved@),
            final(self).error is None,
            final(self).active == old(self).active,
            final(self).leave == old(self).leave,
            final(self).preview_speech == old(self).preview_speech,
            final(self).reset_view == old(self).reset_view,
            final(self).zoom_open == old(self).zoom_open,
    {
        self.baseline = clone_texts(saved);
        self.draft = clone_texts(saved);
        self.error = None;
    }

    /// Discards the unsaved changes; returns whether speech being previewed
    /// must stop.
    pub fn cancel(&mut self, current: &Vec<String>) -> (stop_speech: bool)
        ensures
            stop_speech == old(self).preview_speech,
            !final(self).preview_speech,
            same_texts(final(self).draft@, current@),
            same_texts(final(self).baseline_spec(), current@),
            final(self).error is None,
            final(self).active == old(self).active,
            final(self).leave == old(self).leave,
            final(self).reset_view == old(self).reset_view,
            final(self).zoom_open == old(self).zoom_open,
    {
        let stop = self.preview_speech;
        self.preview_speech = false;
        self.draft = clone_texts(current);
        self.baseline = clone_texts(current);
        self.error = None;
        stop
    }

    /// Called when the page changes. Leaving the settings with unsaved
    /// changes is stopped and the destination remembered; leaving without
    /// changes ends editing. Returns whether speech being previewed must stop.
    pub fn guard_navigation(&mut self, page: &mut Page) -> (stop_speech: bool)
        ensures
            old(self).active && *old(page) != Page::Settings && old(self).changed_spec() ==> {
                &&& *final(page) == Page::Settings
                &&& final(self).leave == Some(Destination::Page(*old(page)))
                &&& final(self).draft == old(self).draft
                &&& final(self).active
                &&& !stop_speech
            },
            old(self).active && *old(page) != Page::Settings && !old(self).changed_spec() ==> {
                &&& *final(page) == *old(page)
                &&& !final(self).active
                &&& final(self).leave is None
                &&& stop_speech == old(self).preview_speech
            },
            !(old(self).active && *old(page) != Page::Settings) ==> *final(page) == *old(page)
                && !stop_speech && final(self).active == old(self).active && final(self).leave == old(
                self,
            ).leave,
    {
        if self.active && *page != Page::Settings {
            if self.changed() {
                self.leave = Some(Destination::Page(*page));
                *page = Page::Settings;
                false
            } else {
                let stop = self.preview_speech;
                *self = SettingsEditor::new();
                stop
            }
        } else {
            false
        }
    }

    /// After restoring a backup the form starts over and the display size is
    /// reset; returns whether speech being previewed must stop.
    pub fn reset_after_restore(&mut self) -> (stop_speech: bool)
        ensures
            stop_speech == old(self).preview_speech,
            !final(self).active,
            final(self).reset_view,
            final(self).leave is None,
            final(self).error is None,
            !final(self).preview_speech,
    {
        let stop = self.preview_speech;
        *self = SettingsEditor::new();
        self.reset_view = true;
        stop
    }

    /// The choice made in the dialog about unsaved settings: the destination
    /// to go to, if any, and whether speech being previewed must stop.
    /// Keeping on editing forgets the destination; saving that failed keeps
    /// the dialog with the error; saving that succeeded (the caller has
    /// committed it) or discarding ends editing and goes on.
    pub fn resolve_leave(&mut self, choice: LeaveChoice, save_error: Option<String>) -> (r: (
        Option<Destination>,
        bool,
    ))
        ensures
            old(self).leave is None ==> r == (None::<Destination>, false) && *final(self) == *old(
                self,
            ),
            old(self).leave is Some && choice == LeaveChoice::KeepEditing ==> {
                &&& r == (None::<Destination>, false)
                &&& *final(self) == (SettingsEditor { leave: None, ..*old(self) })
            },
            old(self).leave is Some && choice == LeaveChoice::SaveAndGo && save_error is Some ==> {
                &&& r == (None::<Destination>, false)
                &&& *final(self) == (SettingsEditor { error: save_error, ..*old(self) })
            },
            old(self).leave is Some && (choice == LeaveChoice::DiscardAndGo || (choice
                == LeaveChoice::SaveAndGo && save_error is None)) ==> {
                &&& r == (old(self).leave, old(self).preview_speech)
                &&& !final(self).active
                &&& final(self).leave is None
                &&& final(self).error is None
                &&& !final(self).preview_speech
                &&& !final(self).reset_view
                &&& !final(self).zoom_open
                &&& final(self).draft@.len() == 0
                &&& final(self).baseline_spec().len() == 0
            },
    {
        let destination = match self.leave {
            Some(d) => d,
            None => return (None, false),
        };
        match choice {
            LeaveChoice::KeepEditing => {
                self.leave = None;
                (None, false)
            },
            LeaveChoice::SaveAndGo if save_error.is_some() => {
                self.error = save_error;
                (None, false)
            },
            _ => {
                let stop = self.preview_speech;
                *self = SettingsEditor::new();
                (Some(destination), stop)
            },
        }
    }

    pub open spec fn changed_spec(&self) -> bool {
        self.active && !same_texts(self.draft@, self.baseline_spec())
    }
}

/// A copy of the list.
pub fn clone_texts(v: &Vec<String>) -> (r: Vec<String>)
    ensures
        r@.len() == v@.len(),
        forall|i: int| 0 <= i < v@.len() ==> (#[trigger] r@[i]) == v@[i],
        same_texts(r@, v@),
{
    let mut out: Vec<String> = Vec::new();
    let mut i: usize = 0;
    while i < v.len()
        invariant
            i <= v@.len(),
            out@.len() == i,
            forall|j: int| 0 <= j < i ==> (#[trigger] out@[j]) == v@[j],
        decreases v@.len() - i,
    {
        out.push(v[i].clone());
        i = i + 1;
    }
    out
}

/// Leaving the draft untouched keeps every current preference, and a draft
/// started from the current settings is saved as it stands.
pub proof fn lemma_merge_keeps_unedited(base: Seq<String>, draft: Seq<String>, current: Seq<String>, i: int)
    requires
        0 <= i < base.len(),
        base.len() == draft.len(),
        draft.len() == current.len(),
    ensures
        draft[i]@ == base[i]@ ==> merged_field(base[i], draft[i], current[i]) == current[i]@,
        base[i]@ == current[i]@ ==> merged_field(base[i], draft[i], current[i]) == draft[i]@,
        draft[i]@ != base[i]@ ==> merged_field(base[i], draft[i], current[i]) == draft[i]@,
{
}

} // verus!
