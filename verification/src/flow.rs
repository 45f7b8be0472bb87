//! The decisions of the application's frame loop: when a session starts or
//! ends, when study time runs, when a recording stops, when to autosave,
//! and which background result still applies.
use vstd::prelude::*;
use crate::chars::same_text;
use crate::format::{decimal, push_decimal};
use crate::notify::{Notices, NoticesView};
use crate::status::Activity;
use crate::text::{trim, trimmed};

verus! {

/// What a request to start studying does.
#[derive(Clone, Copy, Debug, PartialEq, Eq, Structural)]
pub enum StartAction {
    /// Nothing: other work or stopped saving prevents it.
    Refuse,
    /// Return to the session already running.
    Resume,
    /// Begin a new session.
    Begin,
}

/// A session starts only when saving works and no request, recording or
/// batch generation runs; a running session is resumed instead.
pub fn start_action(fatal: bool, pending: bool, recording: bool, batch_running: bool, session_active: bool) -> (r:
    StartAction)
    ensures
        r == if fatal || pending || recording || batch_running {
            StartAction::Refuse
        } else if session_active {
            StartAction::Resume
        } else {
            StartAction::Begin
        },
{
    if fatal || pending || recording || batch_running {
        StartAction::Refuse
    } else if session_active {
        StartAction::Resume
    } else {
        StartAction::Begin
    }
}

/// A session can be finished only while it runs and no request or
/// recording is under way.
pub fn can_finish_session(session_active: bool, pending: bool, recording: bool) -> (r: bool)
    ensures
        r == (session_active && !pending && !recording),
{
    session_active && !pending && !recording
}

/// Study time runs only on the study page, with the window focused, saving
/// working, no end confirmation shown and no request waiting.
pub fn counts_study_time(
    fatal: bool,
    on_study_page: bool,
    end_confirm: bool,
    pending: bool,
    focused: bool,
) -> (r: bool)
    ensures
        r == (!fatal && on_study_page && !end_confirm && !pending && focused),
{
    !fatal && on_study_page && !end_confirm && !pending && focused
}

/// A recording is limited to thirty seconds.
pub const MAX_RECORDING_SECS: u64 = 30;

/// A recording stops by itself after thirty seconds or on a device error.
pub fn recording_must_stop(elapsed_secs: u64, has_error: bool) -> (r: bool)
    ensures
        r == (elapsed_secs >= MAX_RECORDING_SECS || has_error),
{
    elapsed_secs >= MAX_RECORDING_SECS || has_error
}

/// The learning record is saved automatically this long after the last save.
pub const AUTOSAVE_MS: u64 = 20_000;

/// Whether the periodic autosave is due.
pub fn autosave_due(since_last_save_ms: u64) -> (r: bool)
    ensures
        r == (since_last_save_ms > AUTOSAVE_MS),
{
    since_last_save_ms > AUTOSAVE_MS
}

/// A background result applies when it is a connection check, or when it
/// belongs to the question still on screen.
pub fn result_applies(kind: Activity, pending_key: &str, current_key: &str) -> (r: bool)
    ensures
        r == (kind == Activity::Connection || pending_key@ == current_key@),
{
    kind == Activity::Connection || same_text(pending_key, current_key)
}

/// Model choices fetched for an executable path apply only while that path
/// is still the one configured.
pub fn model_choices_apply(fetched_path: &str, codex_path: &str) -> (r: bool)
    ensures
        r == (fetched_path@ == trimmed(codex_path@)),
{
    let current = trim(codex_path);
    same_text(fetched_path, current.as_str())
}

pub open spec fn models_fetched_message(count: nat) -> Seq<char> {
    "Codexから"@ + decimal(count) + "件のモデル候補を取得した。モデルを選びeffortを指定できる。"@
}

pub open spec fn path_changed_message() -> Seq<char> {
    "実行ファイルの設定が変わったため、候補を再取得してください。"@
}

/// What becomes of fetched model choices: they are kept only while the path
/// they were fetched for is still configured, and the message says how many
/// arrived or that they must be fetched again.
pub fn model_choices_outcome(fetched_path: &str, codex_path: &str, count: usize) -> (r: (
    bool,
    String,
))
    ensures
        r.0 == (fetched_path@ == trimmed(codex_path@)),
        r.1@ == if r.0 {
            models_fetched_message(count as nat)
        } else {
            path_changed_message()
        },
{
    if model_choices_apply(fetched_path, codex_path) {
        let mut m = String::from_str("Codexから");
        push_decimal(&mut m, count as u64);
        m.append("件のモデル候補を取得した。モデルを選びeffortを指定できる。");
        (true, m)
    } else {
        (false, String::from_str("実行ファイルの設定が変わったため、候補を再取得してください。"))
    }
}

pub open spec fn batch_progress_message(remaining: nat) -> Seq<char> {
    "生成・登録した。残り"@ + decimal(remaining) + "語。"@
}

/// The message after one word of a batch was generated and registered.
pub fn batch_progress(remaining: usize) -> (r: String)
    ensures
        r@ == batch_progress_message(remaining as nat),
{
    let mut m = String::from_str("生成・登録した。残り");
    push_decimal(&mut m, remaining as u64);
    m.append("語。");
    m
}

/// The catalogue entry of the configured model: the first entry named as
/// the trimmed model setting, provided the catalogue was fetched for the
/// executable path now configured.
pub fn effort_model_index(
    catalog_path: &str,
    codex_path: &str,
    models: &Vec<String>,
    model: &str,
) -> (r: Option<usize>)
    ensures
        match r {
            Some(k) => {
                &&& catalog_path@ == trimmed(codex_path@)
                &&& k < models@.len()
                &&& models@[k as int]@ == trimmed(model@)
                &&& forall|j: int| 0 <= j < k ==> models@[j]@ != trimmed(model@)
            },
            None => catalog_path@ != trimmed(codex_path@) || forall|j: int|
                0 <= j < models@.len() ==> models@[j]@ != trimmed(model@),
        },
{
    if !model_choices_apply(catalog_path, codex_path) {
        return None;
    }
    let wanted = trim(model);
    let mut i: usize = 0;
    while i < models.len()
        invariant
            i <= models@.len(),
            wanted@ == trimmed(model@),
            catalog_path@ == trimmed(codex_path@),
            forall|j: int| 0 <= j < i ==> models@[j]@ != trimmed(model@),
        decreases models@.len() - i,
    {
        let name = models[i].as_str();
        if same_text(name, wanted.as_str()) {
            assert(models@[i as int]@ == name@);
            return Some(i);
        }
        i = i + 1;
    }
    None
}

/// Whether the fetched choices hold the effort.
pub open spec fn advertised(choices: Option<Vec<String>>, effort: Seq<char>) -> bool {
    &&& choices is Some
    &&& exists|k: int| 0 <= k < choices->0@.len() && #[trigger] choices->0@[k]@ == effort
}

/// A saved effort is unconfirmed when it is set and is not among the
/// choices that the selected model advertises (or none were fetched).
pub fn effort_unconfirmed(effort: &str, choices: &Option<Vec<String>>) -> (r: bool)
    ensures
        r == (effort@.len() > 0 && !advertised(*choices, effort@)),
{
    if effort.is_empty() {
        return false;
    }
    match choices {
        None => true,
        Some(c) => {
            let mut i: usize = 0;
            while i < c.len()
                invariant
                    i <= c@.len(),
                    effort@.len() > 0,
                    *choices == Some(*c),
                    forall|j: int| 0 <= j < i ==> #[trigger] c@[j]@ != effort@,
                decreases c@.len() - i,
            {
                let name = c[i].as_str();
                if same_text(name, effort) {
                    assert(choices->0@[i as int]@ == name@);
                    return false;
                }
                i = i + 1;
            }
            true
        },
    }
}

/// Why a session ended.
#[derive(Clone, Copy, Debug, PartialEq, Eq, Structural)]
pub enum EndReason {
    Time,
    Manual,
    NoTasks,
}

/// What the frame loop does for a session when the next task is due: end
/// on time, end without ready tasks, or ask the first ready task.
#[derive(Clone, Copy, Debug, PartialEq, Eq, Structural)]
pub enum NextStep {
    Finish(EndReason),
    Ask(usize),
}

/// The next step of a session: it ends when the planned time is used up,
/// otherwise the first ready task is asked, and without one it ends.
pub fn next_step(timed_out: bool, ready: &[bool]) -> (r: NextStep)
    ensures
        timed_out ==> r == NextStep::Finish(EndReason::Time),
        !timed_out ==> match r {
            NextStep::Ask(i) => i < ready@.len() && ready@[i as int] && forall|j: int|
                0 <= j < i ==> !ready@[j],
            NextStep::Finish(reason) => reason == EndReason::NoTasks && forall|j: int|
                0 <= j < ready@.len() ==> !ready@[j],
        },
{
    if timed_out {
        return NextStep::Finish(EndReason::Time);
    }
    let mut i: usize = 0;
    while i < ready.len()
        invariant
            !timed_out,
            i <= ready@.len(),
            forall|j: int| 0 <= j < i ==> !ready@[j],
        decreases ready@.len() - i,
    {
        if ready[i] {
            return NextStep::Ask(i);
        }
        i = i + 1;
    }
    NextStep::Finish(EndReason::NoTasks)
}

/// The hints shown at once for a task: the learned cue length for recall
/// and listening tasks that do not introduce an item, otherwise none.
pub fn initial_hints(introduce: bool, cue_skill: bool, cue_chars: Option<u32>) -> (r: usize)
    ensures
        r == if !introduce && cue_skill {
            match cue_chars {
                Some(c) => c as nat,
                None => 0,
            }
        } else {
            0
        },
{
    if !introduce && cue_skill {
        match cue_chars {
            Some(c) => c as usize,
            None => 0,
        }
    } else {
        0
    }
}


/// The batch work the frame loop keeps track of.
pub struct WorkFlags {
    /// Whether words are being generated one after another.
    pub batch_running: bool,
    /// Whether generation starts once the word list has been fetched.
    pub fetch_then_generate: bool,
}

/// A background request came back with an error: batch generation and a
/// pending generate-after-fetch stop, and the error becomes the message,
/// shown as an error. Nothing else changes, so the learner's input stays.
pub fn worker_failed(flags: &mut WorkFlags, notices: &mut Notices, error: String)
    ensures
        !final(flags).batch_running,
        !final(flags).fetch_then_generate,
        final(notices)@ == old(notices)@.failure_shown(error@),
{
    flags.batch_running = false;
    flags.fetch_then_generate = false;
    notices.show_failure(error);
}

pub open spec fn lost_result_message() -> Seq<char> {
    "処理が終了したが結果を取得できなかった。入力は保持している。Codexの処理は実行記録から状態と再取得可否を確認してから再試行する。"@
}

/// A background request ended without a result: the same as a failure, with
/// a message that the input is kept and the run can be checked in the run
/// history.
pub fn worker_lost(flags: &mut WorkFlags, notices: &mut Notices)
    ensures
        !final(flags).batch_running,
        !final(flags).fetch_then_generate,
        final(notices)@ == old(notices)@.failure_shown(lost_result_message()),
{
    worker_failed(
        flags,
        notices,
        String::from_str(
            "処理が終了したが結果を取得できなかった。入力は保持している。Codexの処理は実行記録から状態と再取得可否を確認してから再試行する。",
        ),
    );
}


/// What the frame loop holds of the outcome of background work.
pub struct FrameState {
    /// Whether a background request is outstanding.
    pub pending: bool,
    /// The batch work in progress.
    pub flags: WorkFlags,
    /// The status message and notices.
    pub notices: Notices,
    /// The executable path last checked, and whether the check succeeded.
    pub connection_check: Option<(String, bool)>,
    /// The answer being written in the study page.
    pub answer: String,
    /// The feedback on the answer.
    pub feedback: String,
    /// The executable path the kept model choices were fetched for.
    pub catalog_path: Option<String>,
}

/// The frame state with every text as its characters.
pub struct FrameView {
    pub pending: bool,
    pub batch_running: bool,
    pub fetch_then_generate: bool,
    pub notices: NoticesView,
    pub connection_check: Option<(Seq<char>, bool)>,
    pub answer: Seq<char>,
    pub feedback: Seq<char>,
    pub catalog_path: Option<Seq<char>>,
}

impl View for FrameState {
    type V = FrameView;

    open spec fn view(&self) -> FrameView {
        FrameView {
            pending: self.pending,
            batch_running: self.flags.batch_running,
            fetch_then_generate: self.flags.fetch_then_generate,
            notices: self.notices@,
            connection_check: match self.connection_check {
                Some((p, ok)) => Some((p@, ok)),
                None => None,
            },
            answer: self.answer@,
            feedback: self.feedback@,
            catalog_path: match self.catalog_path {
                Some(p) => Some(p@),
                None => None,
            },
        }
    }
}

/// How a background request ended; what only the application can hold
/// (decks, conversations, drafts) is applied there, as the returned action
/// says.
pub enum WorkOutcome {
    /// Handwriting or a recording recognized as the answer.
    Recognized(String),
    /// A recording recognized for a conversation.
    ChatRecognized,
    /// Feedback on a written answer.
    Feedback(String),
    /// A new writing exercise.
    Exercise,
    /// A downloaded word list.
    Words,
    /// A connection check succeeded, with its message.
    Connection(String),
    /// The model choices fetched for an executable path, and their number.
    ModelChoices { path: String, count: usize },
    /// A recovered run, with the label of its outcome.
    Recovered(String),
    /// A drafted teaching material.
    Material,
    /// An answer in a conversation.
    Chat,
    /// A generated word of a batch.
    Generated,
    /// An entry with new examples.
    Updated,
    /// Audio finished playing.
    Played,
    /// The request failed with this message.
    Failed(String),
    /// The request ended without a result.
    Lost,
}

/// What the application still does with an outcome.
#[derive(Clone, Copy, Debug, PartialEq, Eq, Structural)]
pub enum FrameAction {
    /// Nothing: the result belonged to a question no longer on screen.
    Discard,
    /// Nothing more.
    Done,
    ApplyChatRecognition,
    SaveWritingLog,
    StartExercise,
    CacheWords,
    StoreModelChoices,
    RefreshRuns,
    StoreMaterial,
    CompleteChat,
    ImportGenerated,
    ImportUpdated,
}

pub open spec fn recognized_message() -> Seq<char> {
    "認識結果を確認し、誤認識があれば直してから回答してください。"@
}

pub open spec fn recovered_message(label: Seq<char>) -> Seq<char> {
    label + "。本文は実行記録で確認できる。教材・会話には自動反映していない。"@
}

/// The frame state and the application's action after an outcome. Every
/// outcome ends the pending request. A lost result stops batch work and is
/// shown as an error. A result for a question no longer on screen (other
/// than a connection check) is dropped. Otherwise the message is cleared and
/// the outcome applied.
pub open spec fn spec_apply(
    v: FrameView,
    kind: Activity,
    keys_match: bool,
    codex_path: Seq<char>,
    o: WorkOutcome,
) -> (FrameView, FrameAction) {
    let done = FrameView { pending: false, ..v };
    if o is Lost {
        (
            FrameView {
                batch_running: false,
                fetch_then_generate: false,
                notices: v.notices.failure_shown(lost_result_message()),
                ..done
            },
            FrameAction::Done,
        )
    } else if !(kind == Activity::Connection || keys_match) {
        (done, FrameAction::Discard)
    } else {
        let cleared = FrameView { notices: v.notices.with_message(Seq::empty()), ..done };
        match o {
            WorkOutcome::Recognized(t) => (
                FrameView {
                    answer: t@,
                    notices: v.notices.with_message(recognized_message()),
                    ..done
                },
                FrameAction::Done,
            ),
            WorkOutcome::ChatRecognized => (cleared, FrameAction::ApplyChatRecognition),
            WorkOutcome::Feedback(t) => (FrameView { feedback: t@, ..cleared }, FrameAction::SaveWritingLog),
            WorkOutcome::Exercise => (
                FrameView { answer: Seq::empty(), feedback: Seq::empty(), ..cleared },
                FrameAction::StartExercise,
            ),
            WorkOutcome::Words => (cleared, FrameAction::CacheWords),
            WorkOutcome::Connection(t) => (
                FrameView {
                    connection_check: match v.connection_check {
                        Some((p, _)) => Some((p, true)),
                        None => None,
                    },
                    notices: v.notices.with_message(t@),
                    ..done
                },
                FrameAction::Done,
            ),
            WorkOutcome::ModelChoices { path, count } => if path@ == trimmed(codex_path) {
                (
                    FrameView {
                        catalog_path: Some(path@),
                        notices: v.notices.with_message(models_fetched_message(count as nat)),
                        ..done
                    },
                    FrameAction::StoreModelChoices,
                )
            } else {
                (
                    FrameView { notices: v.notices.with_message(path_changed_message()), ..done },
                    FrameAction::Done,
                )
            },
            WorkOutcome::Recovered(label) => (
                FrameView { notices: v.notices.with_message(recovered_message(label@)), ..done },
                FrameAction::RefreshRuns,
            ),
            WorkOutcome::Material => (cleared, FrameAction::StoreMaterial),
            WorkOutcome::Chat => (cleared, FrameAction::CompleteChat),
            WorkOutcome::Generated => (cleared, FrameAction::ImportGenerated),
            WorkOutcome::Updated => (cleared, FrameAction::ImportUpdated),
            WorkOutcome::Played => (cleared, FrameAction::Done),
            WorkOutcome::Failed(e) => (
                FrameView {
                    batch_running: false,
                    fetch_then_generate: false,
                    notices: v.notices.with_message(Seq::empty()).failure_shown(e@),
                    ..done
                },
                FrameAction::Done,
            ),
            WorkOutcome::Lost => (done, FrameAction::Done),
        }
    }
}

/// Applies the outcome of the pending background request of the given kind,
/// started for `pending_key`, while `current_key` is on screen and
/// `codex_path` is configured.
pub fn apply_outcome(
    state: &mut FrameState,
    kind: Activity,
    pending_key: &str,
    current_key: &str,
    codex_path: &str,
    outcome: WorkOutcome,
) -> (a: FrameAction)
    ensures
        (final(state)@, a) == spec_apply(old(state)@, kind, pending_key@ == current_key@, codex_path@, outcome),
        ({
            let n = final(state)@;
            let v = old(state)@;
            let o = outcome;
            let act = a;
            let keys_match = pending_key@ == current_key@;
            let codex_path = codex_path@;
            &&& !n.pending
            &&& (o is Lost ==> {
                &&& !n.batch_running && !n.fetch_then_generate
                &&& n.notices.message == lost_result_message() && n.notices.error == lost_result_message()
                &&& n.answer == v.answer && n.feedback == v.feedback
                &&& act == FrameAction::Done
            })
            &&& (!(o is Lost) && !(kind == Activity::Connection || keys_match) ==> {
                &&& act == FrameAction::Discard
                &&& n.notices == v.notices && n.answer == v.answer && n.feedback == v.feedback
                &&& n.batch_running == v.batch_running && n.connection_check == v.connection_check
                &&& n.catalog_path == v.catalog_path
            })
            &&& ((kind == Activity::Connection || keys_match) ==> match o {
                WorkOutcome::Recognized(t) => n.answer == t@ && n.notices.message
                    == recognized_message() && act == FrameAction::Done,
                WorkOutcome::Feedback(t) => n.feedback == t@ && n.answer == v.answer && act
                    == FrameAction::SaveWritingLog,
                WorkOutcome::Exercise => n.answer.len() == 0 && n.feedback.len() == 0 && act
                    == FrameAction::StartExercise,
                WorkOutcome::Connection(t) => n.notices.message == t@ && act == FrameAction::Done
                    && match v.connection_check {
                    Some((p, _)) => n.connection_check == Some((p, true)),
                    None => n.connection_check is None,
                },
                WorkOutcome::ModelChoices { path, count } => if path@ == trimmed(codex_path) {
                    n.catalog_path == Some(path@) && act == FrameAction::StoreModelChoices
                } else {
                    n.catalog_path == v.catalog_path && act == FrameAction::Done
                },
                WorkOutcome::Failed(e) => !n.batch_running && !n.fetch_then_generate && n.notices.message
                    == e@ && n.notices.error == e@ && n.answer == v.answer && act == FrameAction::Done,
                WorkOutcome::Words => act == FrameAction::CacheWords,
                WorkOutcome::ChatRecognized => act == FrameAction::ApplyChatRecognition,
                WorkOutcome::Material => act == FrameAction::StoreMaterial,
                WorkOutcome::Chat => act == FrameAction::CompleteChat,
                WorkOutcome::Generated => act == FrameAction::ImportGenerated,
                WorkOutcome::Updated => act == FrameAction::ImportUpdated,
                _ => true,
            })
        }),
{
    proof {
        lemma_outcome_effects(state@, kind, pending_key@ == current_key@, codex_path@, outcome);
    }
    state.pending = false;
    if let WorkOutcome::Lost = outcome {
        worker_lost(&mut state.flags, &mut state.notices);
        return FrameAction::Done;
    }
    if !result_applies(kind, pending_key, current_key) {
        return FrameAction::Discard;
    }
    state.notices.set_message(String::new());
    match outcome {
        WorkOutcome::Recognized(t) => {
            state.answer = t;
            state.notices.set_message(
                String::from_str("認識結果を確認し、誤認識があれば直してから回答してください。"),
            );
            FrameAction::Done
        },
        WorkOutcome::ChatRecognized => FrameAction::ApplyChatRecognition,
        WorkOutcome::Feedback(t) => {
            state.feedback = t;
            FrameAction::SaveWritingLog
        },
        WorkOutcome::Exercise => {
            state.answer = String::new();
            state.feedback = String::new();
            FrameAction::StartExercise
        },
        WorkOutcome::Words => FrameAction::CacheWords,
        WorkOutcome::Connection(t) => {
            let checked = match &state.connection_check {
                Some((p, _)) => Some((p.clone(), true)),
                None => None,
            };
            state.connection_check = checked;
            state.notices.set_message(t);
            FrameAction::Done
        },
        WorkOutcome::ModelChoices { path, count } => {
            let (applies, message) = model_choices_outcome(path.as_str(), codex_path, count);
            state.notices.set_message(message);
            if applies {
                state.catalog_path = Some(path);
                FrameAction::StoreModelChoices
            } else {
                FrameAction::Done
            }
        },
        WorkOutcome::Recovered(label) => {
            let mut m = label;
            m.append("。本文は実行記録で確認できる。教材・会話には自動反映していない。");
            state.notices.set_message(m);
            FrameAction::RefreshRuns
        },
        WorkOutcome::Material => FrameAction::StoreMaterial,
        WorkOutcome::Chat => FrameAction::CompleteChat,
        WorkOutcome::Generated => FrameAction::ImportGenerated,
        WorkOutcome::Updated => FrameAction::ImportUpdated,
        WorkOutcome::Played => FrameAction::Done,
        WorkOutcome::Failed(e) => {
            worker_failed(&mut state.flags, &mut state.notices, e);
            FrameAction::Done
        },
        WorkOutcome::Lost => FrameAction::Done,
    }
}

/// Every outcome ends the pending request, and a failure (or a lost result)
/// stops batch work and becomes the message, reported as the error.
pub proof fn lemma_outcome_ends_request(
    v: FrameView,
    kind: Activity,
    keys_match: bool,
    codex_path: Seq<char>,
    o: WorkOutcome,
)
    ensures
        !spec_apply(v, kind, keys_match, codex_path, o).0.pending,
        (o is Failed && (kind == Activity::Connection || keys_match)) || o is Lost ==> {
            let n = spec_apply(v, kind, keys_match, codex_path, o).0;
            !n.batch_running && !n.fetch_then_generate && n.notices.error == n.notices.message
        },
{
}


/// What each outcome does: a lost result stops batch work and reports that
/// the input is kept; a stale result changes nothing but the pending
/// request; a recognized answer replaces the answer, feedback replaces the
/// feedback, a new exercise clears both, a connection success marks the
/// checked path as working, model choices are kept only for the configured
/// path, and a failure stops batch work and becomes the error.
pub proof fn lemma_outcome_effects(
    v: FrameView,
    kind: Activity,
    keys_match: bool,
    codex_path: Seq<char>,
    o: WorkOutcome,
)
    ensures
        ({
            let n = spec_apply(v, kind, keys_match, codex_path, o).0;
            let act = spec_apply(v, kind, keys_match, codex_path, o).1;
            &&& !n.pending
            &&& (o is Lost ==> {
                &&& !n.batch_running && !n.fetch_then_generate
                &&& n.notices.message == lost_result_message() && n.notices.error == lost_result_message()
                &&& n.answer == v.answer && n.feedback == v.feedback
                &&& act == FrameAction::Done
            })
            &&& (!(o is Lost) && !(kind == Activity::Connection || keys_match) ==> {
                &&& act == FrameAction::Discard
                &&& n.notices == v.notices && n.answer == v.answer && n.feedback == v.feedback
                &&& n.batch_running == v.batch_running && n.connection_check == v.connection_check
                &&& n.catalog_path == v.catalog_path
            })
            &&& ((kind == Activity::Connection || keys_match) ==> match o {
                WorkOutcome::Recognized(t) => n.answer == t@ && n.notices.message
                    == recognized_message() && act == FrameAction::Done,
                WorkOutcome::Feedback(t) => n.feedback == t@ && n.answer == v.answer && act
                    == FrameAction::SaveWritingLog,
                WorkOutcome::Exercise => n.answer.len() == 0 && n.feedback.len() == 0 && act
                    == FrameAction::StartExercise,
                WorkOutcome::Connection(t) => n.notices.message == t@ && act == FrameAction::Done
                    && match v.connection_check {
                    Some((p, _)) => n.connection_check == Some((p, true)),
                    None => n.connection_check is None,
                },
                WorkOutcome::ModelChoices { path, count } => if path@ == trimmed(codex_path) {
                    n.catalog_path == Some(path@) && act == FrameAction::StoreModelChoices
                } else {
                    n.catalog_path == v.catalog_path && act == FrameAction::Done
                },
                WorkOutcome::Failed(e) => !n.batch_running && !n.fetch_then_generate && n.notices.message
                    == e@ && n.notices.error == e@ && n.answer == v.answer && act == FrameAction::Done,
                WorkOutcome::Words => act == FrameAction::CacheWords,
                WorkOutcome::ChatRecognized => act == FrameAction::ApplyChatRecognition,
                WorkOutcome::Material => act == FrameAction::StoreMaterial,
                WorkOutcome::Chat => act == FrameAction::CompleteChat,
                WorkOutcome::Generated => act == FrameAction::ImportGenerated,
                WorkOutcome::Updated => act == FrameAction::ImportUpdated,
                _ => true,
            })
        }),
{
}

} // verus!
