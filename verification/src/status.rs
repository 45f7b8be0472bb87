//! Names and status lines: what the application is doing, and what is known
//! of the connection to Codex.
use vstd::prelude::*;
use crate::text::{trim, trimmed};

verus! {

/// The kinds of background work.
#[derive(Clone, Copy, Debug, PartialEq, Eq, Structural)]
pub enum Activity {
    Study,
    Generate,
    Connection,
    Chat,
    Material,
    Playback,
    Recognition,
    Models,
    Recovery,
    Download,
}

pub open spec fn activity_text(a: Activity) -> Seq<char> {
    match a {
        Activity::Study => "学習の認識・生成・添削中"@,
        Activity::Generate => "教材を生成・登録中"@,
        Activity::Connection => "接続・ChatGPT認証を確認中"@,
        Activity::Chat => "Codexが回答を準備中"@,
        Activity::Material => "選択した往復から教材案を作成中（未登録）"@,
        Activity::Playback => "保存した音声を再生中"@,
        Activity::Recognition => "音声・筆跡を文字起こし中（まだ送信しない）"@,
        Activity::Models => "サーバーからモデル・effort候補を取得中"@,
        Activity::Recovery => "実行結果を再取得中（再生成・再登録はしない）"@,
        Activity::Download => "NGSLの語彙一覧を取得中"@,
    }
}

impl Activity {
    /// What the user sees while this work runs.
    pub fn label(self) -> (r: &'static str)
        ensures
            r@ == activity_text(self),
    {
        match self {
            Activity::Study => "学習の認識・生成・添削中",
            Activity::Generate => "教材を生成・登録中",
            Activity::Connection => "接続・ChatGPT認証を確認中",
            Activity::Chat => "Codexが回答を準備中",
            Activity::Material => "選択した往復から教材案を作成中（未登録）",
            Activity::Playback => "保存した音声を再生中",
            Activity::Recognition => "音声・筆跡を文字起こし中（まだ送信しない）",
            Activity::Models => "サーバーからモデル・effort候補を取得中",
            Activity::Recovery => "実行結果を再取得中（再生成・再登録はしない）",
            Activity::Download => "NGSLの語彙一覧を取得中",
        }
    }
}

/// The ways of answering a study question.
#[derive(Clone, Copy, Debug, PartialEq, Eq, Structural)]
pub enum Input {
    Keyboard,
    Pen,
    Voice,
}

pub open spec fn input_text(i: Input) -> Seq<char> {
    match i {
        Input::Keyboard => "keyboard"@,
        Input::Pen => "pen"@,
        Input::Voice => "voice"@,
    }
}

impl Input {
    /// The name under which an answer's input method is recorded.
    pub fn name(self) -> (r: &'static str)
        ensures
            r@ == input_text(self),
    {
        match self {
            Input::Keyboard => "keyboard",
            Input::Pen => "pen",
            Input::Voice => "voice",
        }
    }
}

/// The categories of the settings page.
#[derive(Clone, Copy, Debug, PartialEq, Eq, Structural)]
pub enum SettingsSection {
    Learning,
    Voice,
    Connection,
    Data,
    Help,
}

pub open spec fn section_text(s: SettingsSection) -> Seq<char> {
    match s {
        SettingsSection::Learning => "学習・表示"@,
        SettingsSection::Voice => "音声"@,
        SettingsSection::Connection => "AI接続"@,
        SettingsSection::Data => "教材・データ"@,
        SettingsSection::Help => "診断・ヘルプ"@,
    }
}

impl SettingsSection {
    /// The tab label of the category.
    pub fn label(self) -> (r: &'static str)
        ensures
            r@ == section_text(self),
    {
        match self {
            SettingsSection::Learning => "学習・表示",
            SettingsSection::Voice => "音声",
            SettingsSection::Connection => "AI接続",
            SettingsSection::Data => "教材・データ",
            SettingsSection::Help => "診断・ヘルプ",
        }
    }
}

/// A field value as shown: a lone `-` (no suitable expression) is shown as
/// a full-width dash.
pub fn shown(s: &str) -> (r: &str)
    ensures
        r@ == (if s@ == "-"@ { "－"@ } else { s@ }),
{
    if crate::chars::same_text(s, "-") {
        "－"
    } else {
        s
    }
}

/// What the application is doing, in order of precedence: background work,
/// recording, a study session, batch generation, stopped saving, idle.
pub open spec fn spec_activity_label(
    pending: Option<Activity>,
    recording: bool,
    studying: bool,
    batch_running: bool,
    fatal: bool,
) -> Seq<char> {
    match pending {
        Some(a) => activity_text(a),
        None => if recording {
            "録音中。音声・手書き入力から録音を操作できる"@
        } else if studying {
            "学習中。学習を終了するとチャットを送信できる"@
        } else if batch_running {
            "教材の一括生成中"@
        } else if fatal {
            "保存を停止中。設定画面で退避・復旧を確認"@
        } else {
            "入力して送信できる"@
        },
    }
}

/// The status line of the application.
pub fn activity_label(
    pending: Option<Activity>,
    recording: bool,
    studying: bool,
    batch_running: bool,
    fatal: bool,
) -> (r: &'static str)
    ensures
        r@ == spec_activity_label(pending, recording, studying, batch_running, fatal),
{
    match pending {
        Some(a) => a.label(),
        None => if recording {
            "録音中。音声・手書き入力から録音を操作できる"
        } else if studying {
            "学習中。学習を終了するとチャットを送信できる"
        } else if batch_running {
            "教材の一括生成中"
        } else if fatal {
            "保存を停止中。設定画面で退避・復旧を確認"
        } else {
            "入力して送信できる"
        },
    }
}

/// What is known of the connection: a check is running, or the last check
/// of the executable path now configured succeeded or failed, or nothing is
/// known. A check of another path says nothing about the current one.
pub open spec fn spec_connection_label(
    pending: Option<Activity>,
    check: Option<(Seq<char>, bool)>,
    codex_path: Seq<char>,
) -> Seq<char> {
    if pending == Some(Activity::Connection) {
        "接続テスト：確認中"@
    } else {
        match check {
            Some((path, ok)) if path == trimmed(codex_path) => if ok {
                "接続テスト：前回成功（現在の接続を保証するものではない）"@
            } else {
                "接続テスト：前回失敗。設定と認証を確認して再試行"@
            },
            _ => "接続テスト：未確認"@,
        }
    }
}

/// The connection status line.
pub fn connection_label(
    pending: Option<Activity>,
    check: &Option<(String, bool)>,
    codex_path: &str,
) -> (r: &'static str)
    ensures
        r@ == spec_connection_label(
            pending,
            match check {
                Some((p, ok)) => Some((p@, *ok)),
                None => None,
            },
            codex_path@,
        ),
{
    if pending == Some(Activity::Connection) {
        return "接続テスト：確認中";
    }
    match check {
        Some((path, ok)) => {
            let current = trim(codex_path);
            if *path == current {
                if *ok {
                    "接続テスト：前回成功（現在の接続を保証するものではない）"
                } else {
                    "接続テスト：前回失敗。設定と認証を確認して再試行"
                }
            } else {
                "接続テスト：未確認"
            }
        },
        None => "接続テスト：未確認",
    }
}

} // verus!
