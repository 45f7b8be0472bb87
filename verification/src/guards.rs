//! When an operation may start, and what the user is told when it may not.
use vstd::prelude::*;
use crate::chars::chars_of;
use crate::text::{is_blank, trim, trimmed};

verus! {

/// What is running or unsaved when a conversation is to be changed.
pub struct ChatActivity {
    pub fatal: bool,
    pub pending: bool,
    pub recording: bool,
    pub studying: bool,
    pub batch_running: bool,
    pub import_pending: bool,
    pub restore_pending: bool,
    pub backup_pending: bool,
    pub unsaved_audio: bool,
    pub annotation_frozen: bool,
    pub annotation_text_empty: bool,
}

pub open spec fn chat_busy_message() -> Seq<char> {
    "処理を終了してから会話を操作してください。"@
}

pub open spec fn unsaved_media_message() -> Seq<char> {
    "未保存の録音・手書き注釈を先に添付、退避または破棄してください。"@
}

impl ChatActivity {
    /// Work that must finish before conversations change.
    pub open spec fn busy(self) -> bool {
        self.fatal || self.pending || self.recording || self.studying || self.batch_running
            || self.import_pending || self.restore_pending || self.backup_pending
    }

    /// Recordings and annotations that would be lost.
    pub open spec fn unsaved_media(self) -> bool {
        self.unsaved_audio || self.annotation_frozen || !self.annotation_text_empty
    }
}

/// Conversations are created, deleted or restored only when nothing runs
/// and no recording or annotation is unsaved.
pub fn chat_change_allowed(a: &ChatActivity) -> (r: Result<(), String>)
    ensures
        r is Ok <==> !a.busy() && !a.unsaved_media(),
        r matches Err(m) ==> if a.busy() {
            m@ == chat_busy_message()
        } else {
            m@ == unsaved_media_message()
        },
{
    if a.fatal || a.pending || a.recording || a.studying || a.batch_running || a.import_pending
        || a.restore_pending || a.backup_pending {
        return Err(String::from_str("処理を終了してから会話を操作してください。"));
    }
    if a.unsaved_audio || a.annotation_frozen || !a.annotation_text_empty {
        return Err(String::from_str("未保存の録音・手書き注釈を先に添付、退避または破棄してください。"));
    }
    Ok(())
}

/// Closing the application is held back while a recording or annotation of
/// the chat is unsaved.
pub fn exit_blocked(unsaved_audio: bool, annotation_frozen: bool, annotation_text: &str) -> (r:
    bool)
    ensures
        r == (unsaved_audio || annotation_frozen || annotation_text@.len() != 0),
{
    unsaved_audio || annotation_frozen || !annotation_text.is_empty()
}

/// Ending a study session asks for confirmation when an answer, ink, a
/// recording or a revealed answer would be lost.
pub fn study_end_needs_confirm(answer: &str, ink_empty: bool, has_recording: bool, revealed: bool) -> (r:
    bool)
    ensures
        r == (trimmed(answer@).len() != 0 || !ink_empty || has_recording || revealed),
{
    !is_blank(answer) || !ink_empty || has_recording || revealed
}

pub open spec fn japanese_length_message() -> Seq<char> {
    "日本語原文を1〜2,000文字で登録してください。"@
}

/// A Japanese sentence to be rendered in English must hold between one and
/// 2000 characters, and not only whitespace.
pub fn check_japanese_source(japanese: &str) -> (r: Result<(), String>)
    ensures
        r is Ok <==> (trimmed(japanese@).len() != 0 && japanese@.len() <= 2000),
        r matches Err(m) ==> m@ == japanese_length_message(),
{
    let n = chars_of(japanese).len();
    if is_blank(japanese) || n > 2000 {
        return Err(String::from_str("日本語原文を1〜2,000文字で登録してください。"));
    }
    Ok(())
}

pub open spec fn daily_limit_message() -> Seq<char> {
    "本日のAI送信回数の上限に達しました。無料の自己評価は続けられます。"@
}

pub open spec fn missing_answer_message() -> Seq<char> {
    "回答または自作の英文を入力してください。"@
}

pub open spec fn missing_recording_message() -> Seq<char> {
    "先に録音してください。"@
}

/// What a study request to Codex sends.
#[derive(Clone, Copy, Debug, PartialEq, Eq, Structural)]
pub enum StudyRequest {
    /// The typed answer, for feedback.
    Feedback,
    /// The handwriting, for recognition.
    Ink,
    /// The recording, for transcription.
    Recording,
    /// A new writing exercise.
    Exercise,
}

/// Whether a study request may be sent: within today's limit of requests,
/// with a recording for a transcription and a typed answer for feedback.
pub fn check_study_request(
    request: StudyRequest,
    calls_today: u32,
    daily_limit: u32,
    answer: &str,
    has_recording: bool,
) -> (r: Result<(), String>)
    ensures
        r is Ok <==> (calls_today < daily_limit && (request == StudyRequest::Recording
            ==> has_recording) && (request == StudyRequest::Feedback ==> trimmed(answer@).len()
            != 0)),
        r matches Err(m) ==> if calls_today >= daily_limit {
            m@ == daily_limit_message()
        } else if request == StudyRequest::Recording {
            m@ == missing_recording_message()
        } else {
            m@ == missing_answer_message()
        },
{
    if calls_today >= daily_limit {
        return Err(String::from_str("本日のAI送信回数の上限に達しました。無料の自己評価は続けられます。"));
    }
    if request == StudyRequest::Recording && !has_recording {
        return Err(String::from_str("先に録音してください。"));
    }
    if request == StudyRequest::Feedback && is_blank(answer) {
        return Err(String::from_str("回答または自作の英文を入力してください。"));
    }
    Ok(())
}

/// Restoring an older backup never lowers today's count of paid requests.
pub fn restored_calls(backup_today: u32, used_today: u32) -> (r: u32)
    ensures
        r >= used_today,
        r >= backup_today,
        r == backup_today || r == used_today,
{
    if backup_today >= used_today {
        backup_today
    } else {
        used_today
    }
}

/// The index of the material shown in detail: the selected one while the
/// search still lists it, otherwise the first match, and none without
/// matches.
pub fn selected_material(selected: usize, matches: &[usize]) -> (r: Option<usize>)
    ensures
        matches@.contains(selected) ==> r == Some(selected),
        !matches@.contains(selected) && matches@.len() > 0 ==> r == Some(matches@[0]),
        matches@.len() == 0 ==> r is None,
{
    let mut i: usize = 0;
    while i < matches.len()
        invariant
            i <= matches@.len(),
            forall|j: int| 0 <= j < i ==> matches@[j] != selected,
        decreases matches@.len() - i,
    {
        if matches[i] == selected {
            return Some(selected);
        }
        i = i + 1;
    }
    if matches.len() > 0 {
        Some(matches[0])
    } else {
        None
    }
}


/// The longest conversation title, in characters.
pub const MAX_TITLE_CHARS: usize = 100;

/// A title that is not blank, holds at most 100 characters and no line
/// break.
pub open spec fn savable_title(draft: Seq<char>) -> bool {
    trimmed(draft).len() != 0 && draft.len() <= MAX_TITLE_CHARS && !draft.contains('\r')
        && !draft.contains('\n')
}

/// A new conversation title can be saved when it is not blank, holds at
/// most 100 characters and no line break.
pub fn title_savable(draft: &str) -> (r: bool)
    ensures
        r == savable_title(draft@),
{
    let cs = chars_of(draft);
    let mut line_break = false;
    let mut i: usize = 0;
    while i < cs.len()
        invariant
            i <= cs@.len(),
            cs@ == draft@,
            line_break == exists|j: int| 0 <= j < i && (cs@[j] == '\r' || cs@[j] == '\n'),
        decreases cs@.len() - i,
    {
        if cs[i] == '\r' || cs[i] == '\n' {
            line_break = true;
        }
        i = i + 1;
    }
    proof {
        if draft@.contains('\r') {
            let j = choose|j: int| 0 <= j < draft@.len() && draft@[j] == '\r';
            assert(cs@[j] == '\r');
        }
        if draft@.contains('\n') {
            let j = choose|j: int| 0 <= j < draft@.len() && draft@[j] == '\n';
            assert(cs@[j] == '\n');
        }
        if line_break {
            let j = choose|j: int| 0 <= j < cs@.len() && (cs@[j] == '\r' || cs@[j] == '\n');
            assert(draft@[j] == cs@[j]);
        }
    }
    !is_blank(draft) && cs.len() <= MAX_TITLE_CHARS && !line_break
}


pub open spec fn title_rule_message() -> Seq<char> {
    "1〜100文字。改行は入力できない。"@
}

/// Renames a conversation: a savable title replaces the old one, trimmed,
/// and marks the title as chosen by the user; otherwise nothing changes.
pub fn rename_conversation(title: &mut String, manual: &mut bool, draft: &str) -> (r: Result<(), String>)
    ensures
        r is Ok <==> savable_title(draft@),
        r is Ok ==> final(title)@ == trimmed(draft@) && *final(manual),
        r is Err ==> final(title)@ == old(title)@ && *final(manual) == *old(manual),
        r matches Err(m) ==> m@ == title_rule_message(),
{
    if !title_savable(draft) {
        return Err(String::from_str("1〜100文字。改行は入力できない。"));
    }
    *title = trim(draft);
    *manual = true;
    Ok(())
}


/// The unsaved chat media and the state of the exit warning.
#[derive(Clone, Copy, Debug, PartialEq, Eq, Structural)]
pub struct ExitMedia {
    /// A recording not yet attached or saved.
    pub unsaved_audio: bool,
    /// A fixed annotation background not yet attached or saved.
    pub annotation_frozen: bool,
    /// Whether the annotation's source text is empty.
    pub annotation_text_empty: bool,
    /// Whether closing the application waits on the user's choice.
    pub exit_requested: bool,
    /// Whether the media window should scroll to the exit warning.
    pub scroll_to_warning: bool,
    /// Whether the media window is open.
    pub media_open: bool,
}

/// What happens around closing the application with unsaved media.
#[derive(Clone, Copy, Debug, PartialEq, Eq, Structural)]
pub enum ExitEvent {
    /// The window is asked to close.
    CloseRequested,
    /// The user chose to keep working.
    KeepWorking,
    /// The user closed the media window.
    WindowClosed,
    /// The user chose to discard the unsaved media and exit.
    DiscardAndExit,
    /// The media window was drawn; the unsaved media may have been saved.
    Frame,
}

/// What the application does with the close request.
#[derive(Clone, Copy, Debug, PartialEq, Eq, Structural)]
pub enum ExitAction {
    /// Nothing: a close request goes on, any other event changes only state.
    Proceed,
    /// Cancel the close request, show the chat page and the warning.
    CancelClose,
    /// Close the application.
    Close,
}

impl ExitMedia {
    /// Whether something would be lost on exit.
    pub open spec fn unsaved(self) -> bool {
        self.unsaved_audio || self.annotation_frozen || !self.annotation_text_empty
    }
}

/// One step of the exit flow: a close request with unsaved media is
/// cancelled and the media window opens on the warning; keeping on working
/// or closing the window withdraws the request; discarding drops the media
/// and exits; once nothing is unsaved, a pending request closes.
pub open spec fn spec_exit_step(s: ExitMedia, e: ExitEvent) -> (ExitMedia, ExitAction) {
    match e {
        ExitEvent::CloseRequested => if s.unsaved() {
            (
                ExitMedia { exit_requested: true, scroll_to_warning: true, media_open: true, ..s },
                ExitAction::CancelClose,
            )
        } else {
            (s, ExitAction::Proceed)
        },
        ExitEvent::KeepWorking => (
            ExitMedia { exit_requested: false, scroll_to_warning: false, ..s },
            ExitAction::Proceed,
        ),
        ExitEvent::WindowClosed => (
            ExitMedia { exit_requested: false, scroll_to_warning: false, media_open: false, ..s },
            ExitAction::Proceed,
        ),
        ExitEvent::DiscardAndExit => (
            ExitMedia {
                unsaved_audio: false,
                annotation_frozen: false,
                annotation_text_empty: true,
                exit_requested: false,
                scroll_to_warning: false,
                media_open: false,
            },
            ExitAction::Close,
        ),
        ExitEvent::Frame => if s.exit_requested && !s.unsaved() {
            (
                ExitMedia { exit_requested: false, scroll_to_warning: false, media_open: false, ..s },
                ExitAction::Close,
            )
        } else {
            (s, ExitAction::Proceed)
        },
    }
}

/// The exit flow's next state and action.
pub fn exit_media_step(s: ExitMedia, e: ExitEvent) -> (r: (ExitMedia, ExitAction))
    ensures
        r == spec_exit_step(s, e),
        ({
            let n = r.0;
            let a = r.1;
            let lost = s.unsaved_audio || s.annotation_frozen || !s.annotation_text_empty;
            let keeps_media = n.unsaved_audio == s.unsaved_audio && n.annotation_frozen
                == s.annotation_frozen && n.annotation_text_empty == s.annotation_text_empty;
            &&& (e == ExitEvent::CloseRequested ==> if lost {
                a == ExitAction::CancelClose && n.exit_requested && n.media_open && n.scroll_to_warning
                    && keeps_media
            } else {
                a == ExitAction::Proceed && n == s
            })
            &&& (e == ExitEvent::KeepWorking ==> a == ExitAction::Proceed && !n.exit_requested
                && !n.scroll_to_warning && n.media_open == s.media_open && keeps_media)
            &&& (e == ExitEvent::WindowClosed ==> a == ExitAction::Proceed && !n.exit_requested
                && !n.scroll_to_warning && !n.media_open && keeps_media)
            &&& (e == ExitEvent::DiscardAndExit ==> a == ExitAction::Close && !n.unsaved_audio
                && !n.annotation_frozen && n.annotation_text_empty && !n.exit_requested
                && !n.media_open)
            &&& (e == ExitEvent::Frame ==> if s.exit_requested && !lost {
                a == ExitAction::Close && !n.exit_requested && !n.media_open && keeps_media
            } else {
                a == ExitAction::Proceed && n == s
            })
            &&& ((e == ExitEvent::KeepWorking || e == ExitEvent::WindowClosed)
                ==> spec_exit_step(n, ExitEvent::Frame).1 == ExitAction::Proceed)
        }),
{
    proof {
        lemma_exit_flow(s, e);
    }
    let unsaved = s.unsaved_audio || s.annotation_frozen || !s.annotation_text_empty;
    match e {
        ExitEvent::CloseRequested => if unsaved {
            (
                ExitMedia { exit_requested: true, scroll_to_warning: true, media_open: true, ..s },
                ExitAction::CancelClose,
            )
        } else {
            (s, ExitAction::Proceed)
        },
        ExitEvent::KeepWorking => (
            ExitMedia { exit_requested: false, scroll_to_warning: false, ..s },
            ExitAction::Proceed,
        ),
        ExitEvent::WindowClosed => (
            ExitMedia { exit_requested: false, scroll_to_warning: false, media_open: false, ..s },
            ExitAction::Proceed,
        ),
        ExitEvent::DiscardAndExit => (
            ExitMedia {
                unsaved_audio: false,
                annotation_frozen: false,
                annotation_text_empty: true,
                exit_requested: false,
                scroll_to_warning: false,
                media_open: false,
            },
            ExitAction::Close,
        ),
        ExitEvent::Frame => if s.exit_requested && !unsaved {
            (
                ExitMedia { exit_requested: false, scroll_to_warning: false, media_open: false, ..s },
                ExitAction::Close,
            )
        } else {
            (s, ExitAction::Proceed)
        },
    }
}

/// The application never closes while media would be lost, unless the user
/// chose to discard it.
pub proof fn lemma_exit_never_loses_media(s: ExitMedia, e: ExitEvent)
    requires
        s.unsaved(),
        e != ExitEvent::DiscardAndExit,
    ensures
        spec_exit_step(s, e).1 != ExitAction::Close,
        spec_exit_step(s, e).1 != ExitAction::Proceed || e != ExitEvent::CloseRequested,
{
}


/// The exit flow: a close request waits exactly while media would be lost,
/// opening the media window on the warning; keeping on working or closing
/// the media window withdraws the request, so no later frame closes the
/// application; discarding drops the media and closes; and a frame closes
/// exactly when a request waits and nothing is unsaved any more.
pub proof fn lemma_exit_flow(s: ExitMedia, e: ExitEvent)
    ensures
        ({
            let n = spec_exit_step(s, e).0;
            let a = spec_exit_step(s, e).1;
            let lost = s.unsaved_audio || s.annotation_frozen || !s.annotation_text_empty;
            let keeps_media = n.unsaved_audio == s.unsaved_audio && n.annotation_frozen
                == s.annotation_frozen && n.annotation_text_empty == s.annotation_text_empty;
            &&& (e == ExitEvent::CloseRequested ==> if lost {
                a == ExitAction::CancelClose && n.exit_requested && n.media_open && n.scroll_to_warning
                    && keeps_media
            } else {
                a == ExitAction::Proceed && n == s
            })
            &&& (e == ExitEvent::KeepWorking ==> a == ExitAction::Proceed && !n.exit_requested
                && !n.scroll_to_warning && n.media_open == s.media_open && keeps_media)
            &&& (e == ExitEvent::WindowClosed ==> a == ExitAction::Proceed && !n.exit_requested
                && !n.scroll_to_warning && !n.media_open && keeps_media)
            &&& (e == ExitEvent::DiscardAndExit ==> a == ExitAction::Close && !n.unsaved_audio
                && !n.annotation_frozen && n.annotation_text_empty && !n.exit_requested
                && !n.media_open)
            &&& (e == ExitEvent::Frame ==> if s.exit_requested && !lost {
                a == ExitAction::Close && !n.exit_requested && !n.media_open && keeps_media
            } else {
                a == ExitAction::Proceed && n == s
            })
            &&& ((e == ExitEvent::KeepWorking || e == ExitEvent::WindowClosed)
                ==> spec_exit_step(n, ExitEvent::Frame).1 == ExitAction::Proceed)
        }),
{
}

} // verus!
