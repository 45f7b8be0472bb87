use wordweave_ui::ai::{check_kept_source, check_word_count, clip_answer, Config};
use wordweave_ui::annotation::{
    check_ink_points, check_source_text, count_ink_points, ink_accepts_point,
};
use wordweave_ui::composer::{composer_keys, ComposerEvent, EventKind};
use wordweave_ui::flow::{apply_outcome, FrameAction, FrameState, WorkOutcome};
use wordweave_ui::guards::{exit_media_step, rename_conversation, ExitAction, ExitEvent, ExitMedia};
use wordweave_ui::attachments::{check_payload_size, detach_attachment};
use wordweave_ui::session::grade_step;
use wordweave_ui::attachments::{
    admit_image, admit_text, attach_summary, check_attach, confirm_drop, kind_for_extension,
    offer_drop, AssetKind, ChatDraft, ChatFileConsent,
};
use wordweave_ui::batch::{plan_batch, reserve_generation, Candidate};
use wordweave_ui::deck::{import_counts, merge_records, Record};
use wordweave_ui::encoding::{data_url, png_url, recording_url, MAX_RECORDING_BYTES};
use wordweave_ui::flow::{
    autosave_due, batch_progress, worker_failed, worker_lost, WorkFlags, can_finish_session, model_choices_outcome, counts_study_time, effort_model_index, effort_unconfirmed,
    initial_hints, model_choices_apply, next_step, recording_must_stop, result_applies,
    start_action, EndReason, NextStep, StartAction,
};
use wordweave_ui::format::decimal_text;
use wordweave_ui::guards::{
    chat_change_allowed, check_japanese_source, check_study_request, exit_blocked,
    restored_calls, study_end_needs_confirm, title_savable, ChatActivity, StudyRequest,
};
use wordweave_ui::images::{check_dimensions, display_outcome, image_display_png, DisplayError};
use wordweave_ui::notify::{Notices, Page};
use wordweave_ui::preview::{text_preview, MAX_PREVIEW_CHARS};
use wordweave_ui::quotes::quote_spans;
use wordweave_ui::session::{
    answer_flags, answer_seconds, max_new_items, requeue_introduced, session_totals,
    take_next_task, task_ready, Grade, ReviewRecord, StudyClock,
};
use wordweave_ui::settings::{merge_settings, Destination, LeaveChoice, SettingsEditor};
use wordweave_ui::status::{activity_label, connection_label, shown, Activity};
use wordweave_ui::text::{collapse_whitespace, compact_text, is_blank, trim};
use wordweave_ui::vocabulary::{keyed_counts, vocabulary_counts, KeyedItem, VocabItem};

fn strings(items: &[&str]) -> Vec<String> {
    items.iter().map(|s| s.to_string()).collect()
}

// ---------------------------------------------------------------- notices

#[test]
fn information_does_not_open_the_notice_window() {
    let mut n = Notices::new();
    for message in ["発言をクリップボードへコピーした。", "設定を保存した。", "接続成功"] {
        n.message = message.into();
        n.refresh(false);
        assert!(!n.open, "information must not interrupt: {message}");
        assert!(!n.is_error());
    }
}

#[test]
fn failure_opens_once_and_a_new_failure_reopens() {
    let mut n = Notices::new();
    n.notify_error("接続に失敗した。".into());
    n.refresh(false);
    assert!(n.open && n.is_error());
    n.open = false;
    n.refresh(false);
    n.refresh(false);
    assert!(!n.open, "dismissed alert must stay dismissed");
    n.notify_error("接続に失敗した。".into());
    n.refresh(false);
    assert!(n.open, "a new failure reopens even with the same text");
}

#[test]
fn warning_and_refusal_open_without_being_errors() {
    let mut n = Notices::new();
    n.notify_warning("実行記録の一部を読み込めなかった。".into());
    n.refresh(false);
    assert!(n.open);
    assert!(!n.is_error());
    n.open = false;
    n.notify_blocked("本日の生成上限に達した。".into());
    n.refresh(false);
    assert!(n.open);
    assert!(!n.is_error());
    n.open = false;
    n.notify_result(Ok("保存した。".into()));
    n.refresh(false);
    assert!(!n.open);
}

#[test]
fn alerts_wait_while_work_runs_and_a_copy_does_not_reopen_fatal() {
    let mut n = Notices::new();
    n.notify_result(Err("保存に失敗した。".into()));
    n.refresh(true);
    assert!(!n.open, "defer alerts while work is active");
    n.refresh(false);
    assert!(n.open && n.is_error());
    n.open = false;
    n.fatal = Some("保存先を開けない。".into());
    n.refresh(false);
    assert!(n.open);
    n.open = false;
    n.message = "発言をコピーした。".into();
    n.refresh(false);
    assert!(!n.open, "a copy must not reopen the same fatal alert");
    n.fatal = None;
    n.font_notice = "フォントを代替した。".into();
    n.refresh(false);
    assert!(n.open);
    n.open = false;
    n.message = "別の発言をコピーした。".into();
    n.refresh(false);
    assert!(!n.open);
}

#[test]
fn notice_text_joins_the_present_parts() {
    let mut n = Notices::new();
    assert_eq!(n.text(), "");
    n.fatal = Some("A".into());
    n.message = "B".into();
    assert_eq!(n.text(), "A\n\nB");
    n.font_notice = "C".into();
    assert_eq!(n.text(), "A\n\nB\n\nC");
    n.fatal = None;
    n.message = String::new();
    assert_eq!(n.text(), "C");
}

#[test]
fn missing_executable_is_an_error_and_leads_to_the_path_field() {
    let mut n = Notices::new();
    n.message = "Codexの実行ファイルを指定してください。".into();
    assert!(n.is_error());
    n.refresh(false);
    assert!(n.open);
    let mut page = Page::Chat;
    n.open_codex_path_guidance(&mut page);
    assert_eq!(page, Page::Settings);
    assert!(!n.open && n.path_guidance && n.path_focus_pending);
}

// ---------------------------------------------------------------- status

#[test]
fn connection_status_follows_the_checked_path() {
    let none: Option<(String, bool)> = None;
    assert_eq!(connection_label(None, &none, "codex"), "接続テスト：未確認");
    let ok = Some(("codex".to_string(), true));
    assert_eq!(
        connection_label(None, &ok, "  codex "),
        "接続テスト：前回成功（現在の接続を保証するものではない）"
    );
    assert_eq!(connection_label(None, &ok, "different-cli"), "接続テスト：未確認");
    let failed = Some(("codex".to_string(), false));
    assert_eq!(
        connection_label(None, &failed, "codex"),
        "接続テスト：前回失敗。設定と認証を確認して再試行"
    );
    assert_eq!(
        connection_label(Some(Activity::Connection), &failed, "codex"),
        "接続テスト：確認中"
    );
    assert_eq!(
        connection_label(Some(Activity::Chat), &ok, "codex"),
        "接続テスト：前回成功（現在の接続を保証するものではない）"
    );
}

#[test]
fn activity_label_follows_precedence() {
    assert_eq!(
        activity_label(Some(Activity::Chat), true, true, true, true),
        "Codexが回答を準備中"
    );
    assert_eq!(
        activity_label(None, true, true, false, false),
        "録音中。音声・手書き入力から録音を操作できる"
    );
    assert_eq!(
        activity_label(None, false, true, true, false),
        "学習中。学習を終了するとチャットを送信できる"
    );
    assert_eq!(activity_label(None, false, false, true, true), "教材の一括生成中");
    assert_eq!(
        activity_label(None, false, false, false, true),
        "保存を停止中。設定画面で退避・復旧を確認"
    );
    assert_eq!(activity_label(None, false, false, false, false), "入力して送信できる");
    assert_eq!(Activity::Download.label(), "NGSLの語彙一覧を取得中");
}

#[test]
fn a_lone_dash_is_shown_full_width() {
    assert_eq!(shown("-"), "－");
    assert_eq!(shown("--"), "--");
    assert_eq!(shown("make it"), "make it");
}

// ---------------------------------------------------------------- text

#[test]
fn whitespace_is_collapsed_and_long_lines_are_cut() {
    assert_eq!(collapse_whitespace("  a \t b\n\u{3000}c  "), "a b c");
    assert_eq!(collapse_whitespace(" \n "), "");
    assert_eq!(compact_text("hello   world", 20), "hello world");
    assert_eq!(compact_text("hello   world", 5), "hell…");
    assert_eq!(compact_text("hello", 5), "hello");
    assert_eq!(compact_text("hello", 0), "…");
    assert!(compact_text("one two three four five", 7).chars().count() <= 7);
}

#[test]
fn trimming_and_blank_text() {
    assert_eq!(trim("  日本語 \n"), "日本語");
    assert_eq!(trim("a b"), "a b");
    assert!(is_blank(" \t\n"));
    assert!(is_blank(""));
    assert!(!is_blank(" x "));
}

#[test]
fn decimal_text_has_no_leading_zeros() {
    assert_eq!(decimal_text(0), "0");
    assert_eq!(decimal_text(7), "7");
    assert_eq!(decimal_text(1234), "1234");
    assert_eq!(decimal_text(u64::MAX), "18446744073709551615");
}

// ---------------------------------------------------------------- previews

#[test]
fn text_preview_handles_marks_limits_and_control_characters() {
    assert_eq!(
        text_preview(&[0xEF, 0xBB, 0xBF, b'h', b'i']),
        Some(("hi".into(), false))
    );
    assert_eq!(
        text_preview(&[0xFE, 0xFF, 0, b'A', 0x30, 0x42]),
        Some(("A\u{3042}".to_string(), false))
    );
    assert_eq!(text_preview(b"a\tb\r\nc"), Some(("a\tb\r\nc".into(), false)));
    assert!(text_preview(b"a\x07b").is_none());
    assert!(text_preview(&[0xC3, 0x28]).is_none());
    assert!(text_preview(b"\x89PNG\r\n\x1a\nrest").is_none());
    assert!(text_preview(b"RIFF....WAVE").is_none());
    let long = "x".repeat(MAX_PREVIEW_CHARS + 1);
    let (shown, cut) = text_preview(long.as_bytes()).unwrap();
    assert_eq!(shown.chars().count(), MAX_PREVIEW_CHARS);
    assert!(cut);
    let exact = "y".repeat(MAX_PREVIEW_CHARS);
    assert_eq!(text_preview(exact.as_bytes()), Some((exact.clone(), false)));
}

// ---------------------------------------------------------------- session

#[test]
fn study_clock_counts_frames_up_to_a_second_and_stands_still_when_paused() {
    let mut clock = StudyClock::new(1);
    assert_eq!(clock.budget_secs(), 60);
    assert_eq!(clock.remaining_secs(), 60);
    clock.advance(5000, true);
    assert_eq!(clock.elapsed_secs(), 1);
    clock.advance(400, true);
    clock.advance(700, false);
    assert_eq!(clock.elapsed_secs(), 1);
    clock.toggle_pause();
    assert!(clock.paused());
    clock.advance(900, true);
    assert_eq!(clock.elapsed_secs(), 1);
    clock.toggle_pause();
    clock.advance(600, true);
    assert_eq!(clock.elapsed_secs(), 2);
    assert_eq!(clock.remaining_secs(), 58);
    assert!(!clock.timed_out());
    for _ in 0..60 {
        clock.advance(1000, true);
    }
    assert!(clock.timed_out());
    assert_eq!(clock.remaining_secs(), 0);
}

#[test]
fn credit_settles_and_credits_add_up_to_the_study_time() {
    let mut clock = StudyClock::new(5);
    for _ in 0..3 {
        clock.advance(1000, true);
    }
    assert_eq!(clock.credit(), 3);
    assert_eq!(clock.credit(), 0);
    clock.advance(999, true);
    assert_eq!(clock.credit(), 0);
    clock.advance(1, true);
    clock.advance(1000, true);
    assert_eq!(clock.credit(), 2);
    assert_eq!(clock.elapsed_secs(), 5);
    clock.record_answer();
    clock.record_answer();
    assert_eq!(clock.completed(), 2);
}

#[test]
fn retry_needs_two_minutes_left() {
    let mut clock = StudyClock::new(3);
    assert!(clock.retry_fits());
    for _ in 0..60 {
        clock.advance(1000, true);
    }
    assert!(clock.retry_fits());
    clock.advance(1, true);
    assert!(!clock.retry_fits());
}

#[test]
fn short_sessions_introduce_at_most_one_item() {
    assert_eq!(max_new_items(2, 5), 1);
    assert_eq!(max_new_items(1, 0), 0);
    assert_eq!(max_new_items(3, 5), 5);
}

#[test]
fn tasks_are_taken_in_queue_order_when_ready() {
    assert!(task_ready(true, Some(100), 0));
    assert!(task_ready(false, None, 0));
    assert!(task_ready(false, Some(5), 5));
    assert!(!task_ready(false, Some(6), 5));
    let mut queue = vec!["a", "b", "c", "d"];
    assert_eq!(take_next_task(&mut queue, &[false, true, false, true]), Some("b"));
    assert_eq!(queue, vec!["a", "c", "d"]);
    assert_eq!(take_next_task(&mut queue, &[false, false, false]), None);
    assert_eq!(queue, vec!["a", "c", "d"]);
    requeue_introduced(&mut queue, "n");
    assert_eq!(queue, vec!["a", "c", "n", "d"]);
    let mut short = vec!["x"];
    requeue_introduced(&mut short, "n");
    assert_eq!(short, vec!["x", "n"]);
}

#[test]
fn answer_time_and_flags() {
    assert_eq!(answer_seconds(42), 42);
    assert_eq!(answer_seconds(601), 600);
    assert_eq!(answer_flags(0, None, false, true, Some(true)), (false, false));
    assert_eq!(answer_flags(1, None, false, true, Some(true)), (true, false));
    assert_eq!(answer_flags(0, Some(44), false, true, Some(true)), (true, false));
    assert_eq!(answer_flags(0, Some(45), false, true, Some(true)), (false, false));
    assert_eq!(answer_flags(0, None, true, true, Some(true)), (false, true));
    assert_eq!(answer_flags(0, None, false, false, Some(true)), (false, true));
    assert_eq!(answer_flags(0, None, false, true, Some(false)), (false, true));
    assert_eq!(answer_flags(0, None, false, true, None), (false, true));
}

fn review(key: &str, grade: Grade, assisted: bool, first: bool, due: Option<i64>) -> ReviewRecord {
    ReviewRecord { key: key.into(), grade, assisted, first, due }
}

#[test]
fn session_totals_count_only_this_session() {
    let records = vec![
        review("old", Grade::Good, false, true, Some(1)),
        review("a", Grade::Good, false, true, Some(50)),
        review("b", Grade::Easy, true, false, Some(30)),
        review("b", Grade::Again, false, false, None),
        review("c", Grade::Hard, false, false, Some(40)),
    ];
    let t = session_totals(125, &records, 1);
    assert_eq!(t.seconds, 125);
    assert_eq!(t.answers, 4);
    assert_eq!(t.independent, 1);
    assert_eq!(t.reviewed, 2);
    assert_eq!(t.next_due, Some(30));
    let empty = session_totals(0, &records, 9);
    assert_eq!((empty.answers, empty.independent, empty.reviewed), (0, 0, 0));
    assert_eq!(empty.next_due, None);
}

// ---------------------------------------------------------------- batch

fn candidate(word: &str, key: &str, existing: bool) -> Candidate {
    Candidate { word: word.into(), key: key.into(), existing }
}

fn words_of(queue: &[Candidate]) -> Vec<String> {
    queue.iter().map(|c| c.word.clone()).collect()
}

#[test]
fn batch_plan_keeps_the_queue_and_skips_existing_and_repeated_words() {
    let mut queue = vec![candidate("again", "again", false), candidate("done", "done", true)];
    let words = vec![
        candidate("made", "made", true),
        candidate("Make", "make", false),
        candidate("make", "make", false),
        candidate("again", "again", false),
        candidate("late", "late", false),
    ];
    assert!(plan_batch(&mut queue, words, 3));
    assert_eq!(words_of(&queue), strings(&["again", "Make"]));
}

#[test]
fn batch_plan_with_nothing_to_generate_reports_it() {
    let mut queue = Vec::new();
    assert!(!plan_batch(&mut queue, vec![candidate("made", "made", true)], 10));
    assert!(queue.is_empty());
    assert!(!plan_batch(&mut queue, vec![candidate("new", "new", false)], 0));
}

#[test]
fn generation_limit_refuses_without_consuming_quota() {
    let mut calls = 0u32;
    assert!(reserve_generation(&mut calls, 1).is_ok());
    assert_eq!(calls, 1);
    for _ in 0..2 {
        let e = reserve_generation(&mut calls, 1).unwrap_err();
        assert!(e.contains("本日の生成上限"));
        assert_eq!(calls, 1);
    }
}

// ---------------------------------------------------------------- settings

#[test]
fn settings_merge_keeps_edits_and_outside_changes() {
    let base = strings(&["a", "b", "c"]);
    let draft = strings(&["a", "B", "c"]);
    let current = strings(&["X", "b", "Y"]);
    assert_eq!(merge_settings(&base, &draft, &current), strings(&["X", "B", "Y"]));
    assert_eq!(merge_settings(&base, &base, &current), current);
}

#[test]
fn settings_draft_survives_autosave_and_navigation_needs_a_choice() {
    let saved = strings(&["codex", "50"]);
    let mut editor = SettingsEditor::new();
    editor.begin(&saved);
    assert!(editor.active && !editor.changed());
    editor.draft[0] = "draft-codex".into();
    assert!(editor.changed());
    let autosaved = strings(&["codex", "70"]);
    editor.begin(&autosaved);
    assert_eq!(editor.draft, strings(&["draft-codex", "70"]));
    assert_eq!(editor.baseline(), &autosaved);
    let mut page = Page::Home;
    assert!(!editor.guard_navigation(&mut page));
    assert_eq!(page, Page::Settings);
    assert_eq!(editor.leave, Some(Destination::Page(Page::Home)));
    assert_eq!(editor.to_save(&autosaved), strings(&["draft-codex", "70"]));
    editor.preview_speech = true;
    assert!(editor.cancel(&autosaved));
    assert!(!editor.changed());
    assert_eq!(editor.draft, autosaved);
    let mut page = Page::Chat;
    editor.guard_navigation(&mut page);
    assert_eq!(page, Page::Chat);
    assert!(!editor.active);
}

#[test]
fn settings_commit_and_restore() {
    let mut editor = SettingsEditor::new();
    editor.begin(&strings(&["a"]));
    editor.draft[0] = "b".into();
    editor.error = Some("保存に失敗した。".into());
    editor.committed(&strings(&["b"]));
    assert!(!editor.changed());
    assert_eq!(editor.error, None);
    editor.preview_speech = true;
    assert!(editor.reset_after_restore());
    assert!(!editor.active && editor.reset_view);
}

// ---------------------------------------------------------------- deck

fn record(id: &str, body: &str, value: u32) -> Record<u32> {
    Record { id: id.into(), body: body.into(), value }
}

#[test]
fn import_replaces_by_id_and_appends_the_rest() {
    let mut deck = vec![record("a", "1", 1), record("b", "2", 2)];
    let items = vec![record("b", "2'", 20), record("c", "3", 3), record("a", "1", 10)];
    assert_eq!(import_counts(&deck, &items), (1, 1));
    merge_records(&mut deck, items);
    let ids: Vec<&str> = deck.iter().map(|r| r.id.as_str()).collect();
    assert_eq!(ids, vec!["a", "b", "c"]);
    let values: Vec<u32> = deck.iter().map(|r| r.value).collect();
    assert_eq!(values, vec![10, 20, 3]);
    assert_eq!(deck[1].body, "2'");
}

// ---------------------------------------------------------------- attachments

#[test]
fn dropped_files_are_proposed_only_when_they_fit() {
    let p = offer_drop("chat".to_string(), vec!["a.txt", "b.png"], 3, 1, true, false, false)
        .unwrap();
    assert_eq!(p.chat_id, "chat");
    assert_eq!(p.files, vec!["a.txt", "b.png"]);
    assert_eq!(p.unsupported, 1);
    assert_eq!(
        offer_drop("c".to_string(), vec!["a"], 1, 0, false, false, false).unwrap_err(),
        "処理中は添付できません。処理完了後、もう一度ドロップしてください。"
    );
    assert_eq!(
        offer_drop("c".to_string(), vec!["a"], 1, 0, true, false, true).unwrap_err(),
        "先のファイル添付を確認またはキャンセルしてから、もう一度ドロップしてください。"
    );
    assert_eq!(
        offer_drop::<&str>("c".to_string(), vec![], 2, 0, true, false, false).unwrap_err(),
        "ファイルのパスを取得できません。ファイル選択から添付してください。"
    );
    assert_eq!(
        offer_drop("c".to_string(), vec!["a", "b"], 2, 7, true, false, false).unwrap_err(),
        "添付は一つの発言につき8件までです。現在7件あるため、2件をまとめて追加できません。今回のドロップは保存していません。"
    );
}

#[test]
fn confirmed_drop_rechecks_the_remaining_slots() {
    assert!(confirm_drop(true, 6, 2).is_ok());
    assert_eq!(
        confirm_drop(true, 7, 2).unwrap_err(),
        "確認中に添付数が変わった。上限は8件で、現在7件あるため今回は保存していません。"
    );
    assert_eq!(
        confirm_drop(false, 0, 1).unwrap_err(),
        "会話が切り替わったか処理中のため、ファイルは添付していません。"
    );
}

#[test]
fn attach_summary_reports_partial_batches() {
    assert_eq!(
        attach_summary(1, 0, Some("note.txt".into()), None),
        ("note.txtをメッセージに添付した。送信前に内容を確認できる。".to_string(), false)
    );
    assert_eq!(
        attach_summary(2, 0, None, None),
        ("2件をメッセージに添付した。送信前に内容を確認できる。".to_string(), false)
    );
    assert_eq!(
        attach_summary(1, 2, None, Some("添付ファイルは12MiB以下にしてください。".into())),
        (
            "1件をメッセージに添付した。2件は添付できなかった：添付ファイルは12MiB以下にしてください。"
                .to_string(),
            true
        )
    );
    assert_eq!(
        attach_summary(0, 1, None, None),
        (
            "1件を添付できなかった：このファイルのパスを取得できません。ファイル選択から添付してください。"
                .to_string(),
            true
        )
    );
}

#[test]
fn single_attachments_are_checked_for_trash_count_and_size() {
    assert!(check_attach(false, 7, 12 * 1024 * 1024).is_ok());
    assert_eq!(check_attach(true, 0, 1).unwrap_err(), "ごみ箱の会話には添付できません。");
    assert_eq!(check_attach(false, 8, 1).unwrap_err(), "一つの発言の添付は8件までです。");
    assert_eq!(
        check_attach(false, 0, 12 * 1024 * 1024 + 1).unwrap_err(),
        "添付ファイルは12MiB以下にしてください。"
    );
}

#[test]
fn extensions_choose_the_stored_kind() {
    assert_eq!(kind_for_extension(Some("PNG")), AssetKind::ImagePng);
    assert_eq!(kind_for_extension(Some("bmp")), AssetKind::ImageBmp);
    assert_eq!(kind_for_extension(Some("Gif")), AssetKind::ImageGif);
    assert_eq!(kind_for_extension(Some("jpg")), AssetKind::ImageJpeg);
    assert_eq!(kind_for_extension(Some("JPEG")), AssetKind::ImageJpeg);
    assert_eq!(kind_for_extension(Some("wav")), AssetKind::AudioWav);
    assert_eq!(kind_for_extension(Some("txt")), AssetKind::FileBlob);
    assert_eq!(kind_for_extension(Some("pngx")), AssetKind::FileBlob);
    assert_eq!(kind_for_extension(None), AssetKind::FileBlob);
}

#[test]
fn question_budgets_for_images_and_texts() {
    assert_eq!(admit_image(0, 0, 100), Ok(100));
    assert_eq!(admit_image(11_999_900, 7, 100), Ok(12_000_000));
    assert!(admit_image(11_999_900, 7, 101).is_err());
    assert_eq!(
        admit_image(0, 8, 1).unwrap_err(),
        "送信画像は8件・合計12MBまでです。根拠の選択を減らしてください。"
    );
    assert_eq!(admit_text(10, "日本", false), Ok(16));
    assert!(admit_text(0, "a", true).is_err());
    assert!(admit_text(31_999, "ab", false).is_err());
}

#[test]
fn consent_applies_only_to_the_approved_message() {
    let consent = ChatFileConsent {
        chat_id: "chat".into(),
        question: "Please explain this phrase.".into(),
        attachment_ids: strings(&["f1"]),
        attachment_names: vec![Some("reading-note.txt".into())],
        labels: strings(&["reading-note.txt"]),
        text_names: strings(&["reading-note.txt"]),
    };
    let mut chat = ChatDraft {
        id: "chat".into(),
        deleted: false,
        draft: "  Please explain this phrase.\n".into(),
        attachment_ids: strings(&["f1"]),
        attachment_names: vec![Some("reading-note.txt".into())],
    };
    assert!(consent.matches(&chat));
    chat.attachment_names = vec![Some("other.txt".into())];
    assert!(!consent.matches(&chat));
    chat.attachment_names = vec![Some("reading-note.txt".into())];
    chat.id = "different-chat".into();
    assert!(!consent.matches(&chat));
    chat.id = "chat".into();
    chat.deleted = true;
    assert!(!consent.matches(&chat));
}

// ---------------------------------------------------------------- encoding and images

#[test]
fn data_urls_carry_standard_base64() {
    assert_eq!(data_url("text/plain", b"Man"), "data:text/plain;base64,TWFu");
    assert_eq!(data_url("text/plain", b"Ma"), "data:text/plain;base64,TWE=");
    assert_eq!(data_url("text/plain", b"M"), "data:text/plain;base64,TQ==");
    assert_eq!(data_url("x/y", b""), "data:x/y;base64,");
    assert_eq!(data_url("x/y", &[0xFB, 0xFF]), "data:x/y;base64,+/8=");
    assert_eq!(png_url(b"\x89PNG"), "data:image/png;base64,iVBORw==");
    assert_eq!(recording_url(b"RIFF").unwrap(), "data:audio/wav;base64,UklGRg==");
    let too_big = vec![0u8; MAX_RECORDING_BYTES + 1];
    assert_eq!(
        recording_url(&too_big).unwrap_err(),
        "録音が大きすぎます。30秒以内にしてください。"
    );
}

#[test]
fn image_size_is_checked_before_decoding() {
    assert_eq!(check_dimensions(Ok((2000, 2000))), Ok((2000, 2000)));
    assert_eq!(
        check_dimensions(Ok((2000, 2001))).unwrap_err(),
        "画像の寸法が上限を超えています（最大400万画素）。"
    );
    assert!(check_dimensions(Ok((0, 5))).is_err());
    assert_eq!(
        check_dimensions(Err("header".into())).unwrap_err(),
        "画像の寸法を読めません：header"
    );
}

fn encoded(width: u32, height: u32, format: image::ImageFormat) -> Vec<u8> {
    let img = image::DynamicImage::ImageRgb8(image::RgbImage::from_pixel(
        width,
        height,
        image::Rgb([22, 88, 190]),
    ));
    let mut out = std::io::Cursor::new(Vec::new());
    img.write_to(&mut out, format).unwrap();
    out.into_inner()
}

#[test]
fn bmp_gif_and_jpeg_are_shown_as_png() {
    for format in [image::ImageFormat::Bmp, image::ImageFormat::Gif, image::ImageFormat::Jpeg] {
        let kind = match format {
            image::ImageFormat::Bmp => AssetKind::ImageBmp,
            image::ImageFormat::Gif => AssetKind::ImageGif,
            _ => AssetKind::ImageJpeg,
        };
        let bytes = encoded(3, 2, format);
        let png = image_display_png(kind, &bytes).unwrap();
        assert!(png.starts_with(b"\x89PNG\r\n\x1a\n"));
        assert_ne!(png, bytes);
        let shown = image::load_from_memory(&png).unwrap();
        assert_eq!((shown.width(), shown.height()), (3, 2));
    }
}

#[test]
fn broken_unsupported_and_oversized_images_are_refused() {
    let broken = image_display_png(AssetKind::ImageGif, b"GIF89aBROKEN").unwrap_err();
    assert!(
        broken.starts_with("画像の寸法を読めません：") || broken.starts_with("画像を読み取れません："),
        "{broken}"
    );
    assert_eq!(
        image_display_png(AssetKind::FileBlob, b"plain").unwrap_err(),
        "表示用画像に変換できない形式です。"
    );
    assert_eq!(
        image_display_png(AssetKind::ImagePng, b"\x89PNG\r\n\x1a\n").unwrap_err(),
        "表示用画像に変換できない形式です。"
    );
    let big = encoded(2001, 2000, image::ImageFormat::Bmp);
    assert_eq!(
        image_display_png(AssetKind::ImageBmp, &big).unwrap_err(),
        "画像の寸法が上限を超えています（最大400万画素）。"
    );
}

// ---------------------------------------------------------------- requests

#[test]
fn configured_example_counts_and_kept_sources_are_checked() {
    let config = Config::new("codex".into(), ".".into(), String::new(), "low".into(), 3);
    assert_eq!(config.examples, 3);
    assert!(config.check_draft_examples(3).is_ok());
    assert_eq!(
        config.check_draft_examples(2).unwrap_err(),
        "生成された例文数が指定数と異なります。再度生成してください。"
    );
    assert_eq!(config.check_more_examples(4).unwrap_err(), "例文数が指定と異なります。");
    assert!(check_kept_source("決める", "決める").is_ok());
    assert_eq!(
        check_kept_source("決める", "決めた").unwrap_err(),
        "日本語原文が変わったため登録しませんでした。"
    );
}

#[test]
fn answers_are_clipped_and_word_lists_are_counted() {
    let long = "あ".repeat(3001);
    assert_eq!(clip_answer(&long).chars().count(), 3000);
    assert_eq!(clip_answer("short"), "short");
    assert!(check_word_count(2700).is_ok());
    assert!(check_word_count(3000).is_ok());
    assert_eq!(
        check_word_count(2699).unwrap_err(),
        "NGSLの取得件数が想定外です（2699語）。公式ファイルを確認してください。"
    );
    assert!(check_word_count(3001).is_err());
}

// ---------------------------------------------------------------- guards

fn idle() -> ChatActivity {
    ChatActivity {
        fatal: false,
        pending: false,
        recording: false,
        studying: false,
        batch_running: false,
        import_pending: false,
        restore_pending: false,
        backup_pending: false,
        unsaved_audio: false,
        annotation_frozen: false,
        annotation_text_empty: true,
    }
}

#[test]
fn conversations_change_only_when_idle_and_saved() {
    assert!(chat_change_allowed(&idle()).is_ok());
    let busy = ChatActivity { studying: true, unsaved_audio: true, ..idle() };
    assert_eq!(
        chat_change_allowed(&busy).unwrap_err(),
        "処理を終了してから会話を操作してください。"
    );
    let unsaved = ChatActivity { annotation_text_empty: false, ..idle() };
    assert_eq!(
        chat_change_allowed(&unsaved).unwrap_err(),
        "未保存の録音・手書き注釈を先に添付、退避または破棄してください。"
    );
    assert!(exit_blocked(false, false, "x"));
    assert!(!exit_blocked(false, false, ""));
    assert!(exit_blocked(true, false, ""));
}

#[test]
fn study_guards() {
    assert!(study_end_needs_confirm("answer", true, false, false));
    assert!(!study_end_needs_confirm("  ", true, false, false));
    assert!(study_end_needs_confirm("", false, false, false));
    assert!(check_japanese_source("決める").is_ok());
    assert!(check_japanese_source(" ").is_err());
    assert_eq!(
        check_japanese_source(&"あ".repeat(2001)).unwrap_err(),
        "日本語原文を1〜2,000文字で登録してください。"
    );
    assert_eq!(
        check_study_request(StudyRequest::Ink, 5, 5, "", false).unwrap_err(),
        "本日のAI送信回数の上限に達しました。無料の自己評価は続けられます。"
    );
    assert_eq!(
        check_study_request(StudyRequest::Recording, 0, 5, "", false).unwrap_err(),
        "先に録音してください。"
    );
    assert_eq!(
        check_study_request(StudyRequest::Feedback, 0, 5, " ", true).unwrap_err(),
        "回答または自作の英文を入力してください。"
    );
    assert!(check_study_request(StudyRequest::Exercise, 0, 5, "", false).is_ok());
    assert_eq!(restored_calls(3, 5), 5);
    assert_eq!(restored_calls(7, 5), 7);
}

// ---------------------------------------------------------------- frame loop

#[test]
fn frame_loop_decisions() {
    assert_eq!(start_action(false, false, false, false, false), StartAction::Begin);
    assert_eq!(start_action(false, false, false, false, true), StartAction::Resume);
    assert_eq!(start_action(false, true, false, false, true), StartAction::Refuse);
    assert!(can_finish_session(true, false, false));
    assert!(!can_finish_session(true, true, false));
    assert!(counts_study_time(false, true, false, false, true));
    assert!(!counts_study_time(false, true, false, false, false));
    assert!(recording_must_stop(30, false));
    assert!(!recording_must_stop(29, false));
    assert!(recording_must_stop(0, true));
    assert!(autosave_due(20_001));
    assert!(!autosave_due(20_000));
    assert!(result_applies(Activity::Connection, "a", "b"));
    assert!(!result_applies(Activity::Chat, "a", "b"));
    assert!(result_applies(Activity::Chat, "a", "a"));
    assert!(model_choices_apply("codex", " codex "));
    assert!(!model_choices_apply("codex", "another-cli.exe"));
    assert_eq!(next_step(true, &[true]), NextStep::Finish(EndReason::Time));
    assert_eq!(next_step(false, &[false, true, true]), NextStep::Ask(1));
    assert_eq!(next_step(false, &[false]), NextStep::Finish(EndReason::NoTasks));
    assert_eq!(initial_hints(false, true, Some(3)), 3);
    assert_eq!(initial_hints(true, true, Some(3)), 0);
    assert_eq!(initial_hints(false, false, Some(3)), 0);
}

#[test]
fn effort_choices_come_from_the_current_cli_and_model() {
    let models = strings(&["server-model", "another-model"]);
    assert_eq!(effort_model_index("codex", "codex", &models, " server-model "), Some(0));
    assert_eq!(effort_model_index("codex", "codex", &models, "another-model"), Some(1));
    assert_eq!(effort_model_index("codex", "another-cli.exe", &models, "server-model"), None);
    assert_eq!(effort_model_index("codex", "codex", &models, "unknown"), None);
    let choices = Some(strings(&["low", "server-effort"]));
    assert!(!effort_unconfirmed("", &None));
    assert!(!effort_unconfirmed("server-effort", &choices));
    assert!(effort_unconfirmed("high", &choices));
    assert!(effort_unconfirmed("low", &None));
}

// ---------------------------------------------------------------- vocabulary

#[test]
fn vocabulary_bases_are_compared_trimmed_and_in_lower_case() {
    let item = |base: &str, reviews: Vec<Option<u32>>| VocabItem {
        base: base.into(),
        deleted: false,
        suspended: false,
        reviews,
    };
    let items = vec![
        item(" Make A Decision ", vec![None, Some(2)]),
        item("make a decision", vec![Some(0)]),
        item("ÄRGER", vec![]),
        item("ärger", vec![Some(0), Some(1)]),
    ];
    assert_eq!(vocabulary_counts(&items), (2, 2));
    let mut reordered = vec![items[3].clone(), items[0].clone()];
    reordered.push(items[1].clone());
    reordered.push(items[2].clone());
    reordered.push(items[3].clone());
    assert_eq!(vocabulary_counts(&reordered), (2, 2));
}

// ---------------------------------------------------------------- quotes

fn spans(items: &[(&str, bool)]) -> Vec<(String, bool)> {
    items.iter().map(|(s, b)| (s.to_string(), *b)).collect()
}

#[test]
fn quotes_are_marked_in_the_transcript() {
    assert_eq!(
        quote_spans("I need this line.", &["need", "line"]),
        spans(&[("I ", false), ("need", true), (" this ", false), ("line", true), (".", false)])
    );
    assert_eq!(
        quote_spans("この行だけをコピーする。", &["行だけ"]),
        spans(&[("この", false), ("行だけ", true), ("をコピーする。", false)])
    );
}

#[test]
fn quote_occurrences_do_not_overlap_and_empty_quotes_mark_nothing() {
    assert_eq!(quote_spans("aaa", &["aa"]), spans(&[("aa", true), ("a", false)]));
    assert_eq!(quote_spans("aaaa", &["aa"]), spans(&[("aaaa", true)]));
    assert_eq!(quote_spans("abc", &[""]), spans(&[("abc", false)]));
    assert_eq!(quote_spans("abc", &[]), spans(&[("abc", false)]));
    assert_eq!(quote_spans("", &["a"]), spans(&[]));
    assert_eq!(quote_spans("abcab", &["ab", "bc"]), spans(&[("abcab", true)]));
}

#[test]
fn marked_runs_read_back_as_the_text() {
    let text = "Long English sentence and 長い日本語の発言。";
    let runs = quote_spans(text, &["English", "日本語", "e"]);
    let joined: String = runs.iter().map(|(s, _)| s.as_str()).collect();
    assert_eq!(joined, text);
    assert!(runs.iter().all(|(s, _)| !s.is_empty()));
    assert!(runs.windows(2).all(|w| w[0].1 != w[1].1));
}

// ---------------------------------------------------------------- annotation

#[test]
fn annotation_source_must_be_short_plain_text() {
    let message = "注釈対象の英文を1〜2,000文字で入力してください。";
    assert_eq!(check_source_text("").unwrap_err(), message);
    assert_eq!(check_source_text(" \n ").unwrap_err(), message);
    assert_eq!(check_source_text("a\0b").unwrap_err(), message);
    assert_eq!(check_source_text(&"a".repeat(2001)).unwrap_err(), message);
    assert!(check_source_text(&"a".repeat(2000)).is_ok());
    assert!(check_source_text("Could you make it?\n丸・矢印の対象").is_ok());
}

#[test]
fn ink_is_limited_in_points() {
    assert_eq!(count_ink_points(&[]), 0);
    assert_eq!(count_ink_points(&[2, 3, 10]), 15);
    assert!(ink_accepts_point(29_999));
    assert!(!ink_accepts_point(30_000));
    assert!(check_ink_points(30_000).is_ok());
    assert_eq!(check_ink_points(30_001).unwrap_err(), "筆跡が上限を超えています。");
}

// ---------------------------------------------------------------- composer

#[test]
fn plain_enter_reaches_the_text_field_outside_conversion() {
    let plain = ComposerEvent {
        source: 4,
        kind: EventKind::Enter {
            pressed: true,
            repeat: false,
            ctrl: false,
            shift: false,
            alt: false,
            command: false,
        },
    };
    let other = ComposerEvent { source: 5, kind: EventKind::Other };
    let mut events = vec![plain, other];
    let mut composing = false;
    assert!(!composer_keys(&mut events, true, &mut composing));
    assert_eq!(events, vec![plain, other]);
    let mut composing = true;
    let mut events = vec![plain, other];
    assert!(!composer_keys(&mut events, false, &mut composing));
    assert_eq!(events, vec![plain, other]);
    assert!(!composing);
}

#[test]
fn fetched_model_choices_and_batch_progress_messages() {
    assert_eq!(
        model_choices_outcome("codex", " codex", 3),
        (true, "Codexから3件のモデル候補を取得した。モデルを選びeffortを指定できる。".to_string())
    );
    assert_eq!(
        model_choices_outcome("codex", "draft-codex", 3),
        (false, "実行ファイルの設定が変わったため、候補を再取得してください。".to_string())
    );
    assert_eq!(batch_progress(12), "生成・登録した。残り12語。");
    assert_eq!(batch_progress(0), "生成・登録した。残り0語。");
}

#[test]
fn leaving_unsaved_settings_needs_a_choice_that_succeeds() {
    let saved = strings(&["codex"]);
    let mut editor = SettingsEditor::new();
    assert_eq!(editor.resolve_leave(LeaveChoice::DiscardAndGo, None), (None, false));
    editor.begin(&saved);
    editor.draft[0] = "draft".into();
    let mut page = Page::Stats;
    editor.guard_navigation(&mut page);
    assert_eq!(page, Page::Settings);
    assert_eq!(editor.resolve_leave(LeaveChoice::KeepEditing, None), (None, false));
    assert_eq!(editor.leave, None);
    assert_eq!(editor.draft, strings(&["draft"]));
    let mut page = Page::Stats;
    editor.guard_navigation(&mut page);
    assert_eq!(
        editor.resolve_leave(LeaveChoice::SaveAndGo, Some("保存に失敗した。".into())),
        (None, false)
    );
    assert_eq!(editor.error.as_deref(), Some("保存に失敗した。"));
    assert_eq!(editor.leave, Some(Destination::Page(Page::Stats)));
    assert_eq!(editor.draft, strings(&["draft"]));
    editor.preview_speech = true;
    assert_eq!(
        editor.resolve_leave(LeaveChoice::DiscardAndGo, None),
        (Some(Destination::Page(Page::Stats)), true)
    );
    assert!(!editor.active && editor.leave.is_none() && editor.draft.is_empty());
}

#[test]
fn conversion_outcomes_become_messages() {
    assert_eq!(display_outcome(Ok(vec![1, 2])), Ok(vec![1, 2]));
    assert_eq!(
        display_outcome(Err(DisplayError::Decode("bad".into()))).unwrap_err(),
        "画像を読み取れません：bad"
    );
    assert_eq!(
        display_outcome(Err(DisplayError::Encode("io".into()))).unwrap_err(),
        "表示用画像を作れません：io"
    );
}

#[test]
fn displayed_png_holds_the_decoded_pixels() {
    let bytes = encoded(4, 3, image::ImageFormat::Bmp);
    let png = image_display_png(AssetKind::ImageBmp, &bytes).unwrap();
    let shown = image::load_from_memory_with_format(&png, image::ImageFormat::Png).unwrap();
    assert_eq!(shown.to_rgb8().get_pixel(2, 1), &image::Rgb([22, 88, 190]));
}

fn keyed(key: &str, deleted: bool, answered: bool) -> KeyedItem {
    KeyedItem { key: key.into(), deleted, answered }
}

#[test]
fn keyed_counts_count_distinct_keys_and_answered_ones() {
    assert_eq!(keyed_counts(&[]), (0, 0));
    // An entry never reviewed is not answered; a deleted entry counts for nothing.
    let items = [
        keyed("make a decision", false, false),
        keyed("make a decision", false, true),
        keyed("another word", false, false),
        keyed("gone", true, true),
    ];
    assert_eq!(keyed_counts(&items), (2, 1));
    let items = [keyed("make a decision", false, false), keyed("another word", false, false)];
    assert_eq!(keyed_counts(&items), (2, 0));
}

#[test]
fn failed_background_work_stops_the_batch_and_reports_an_error() {
    let mut flags = WorkFlags { batch_running: true, fetch_then_generate: true };
    let mut n = Notices::new();
    n.attention = "前の警告".into();
    worker_failed(&mut flags, &mut n, "通信エラー".into());
    assert!(!flags.batch_running && !flags.fetch_then_generate);
    assert_eq!(n.message, "通信エラー");
    assert!(n.is_error());
    assert_eq!(n.attention, "前の警告");
    n.refresh(false);
    assert!(n.open);
    let mut flags = WorkFlags { batch_running: true, fetch_then_generate: false };
    worker_lost(&mut flags, &mut n);
    assert!(!flags.batch_running);
    assert!(n.message.starts_with("処理が終了したが結果を取得できなかった。入力は保持している。"));
    assert!(n.is_error());
}

#[test]
fn conversation_titles_are_short_single_lines() {
    assert!(title_savable("  海外旅行の練習  "));
    assert!(!title_savable("   "));
    assert!(!title_savable("line\nbreak"));
    assert!(!title_savable("carriage\rreturn"));
    assert!(title_savable(&"あ".repeat(100)));
    assert!(!title_savable(&"あ".repeat(101)));
}

#[test]
fn compacting_twice_changes_nothing() {
    for (text, limit) in [
        ("hello   world", 5),
        ("ab cd ef", 4),
        ("  a \t b  ", 3),
        ("one", 0),
        ("", 0),
        ("long line of words here", 12),
    ] {
        let once = compact_text(text, limit);
        assert_eq!(compact_text(&once, limit), once, "{text:?} {limit}");
    }
}

#[test]
fn imported_items_with_distinct_ids_keep_their_content() {
    let mut deck = vec![record("a", "1", 1)];
    let items = vec![record("b", "x", 2), record("a", "y", 3), record("c", "z", 4)];
    merge_records(&mut deck, items);
    for (id, body) in [("a", "y"), ("b", "x"), ("c", "z")] {
        assert!(deck.iter().any(|r| r.id == id && r.body == body));
    }
}

#[test]
fn invalid_or_overflowing_source_is_not_silently_clipped() {
    // Blank and NUL sources are refused before drawing; so is one above
    // 2,000 characters. Whether a valid source fits the fixed image is
    // decided by the drawing itself.
    assert!(check_source_text("").is_err());
    assert!(check_source_text("a\0b").is_err());
    assert!(check_source_text(&"a\n".repeat(1001)).is_err());
}

#[test]
fn grading_requeues_again_only_while_time_remains_and_credits_time() {
    let mut clock = StudyClock::new(3);
    let mut queue = vec!["b"];
    for _ in 0..5 {
        clock.advance(1000, true);
    }
    assert_eq!(grade_step(&mut clock, &mut queue, "a", Grade::Again), 5);
    assert_eq!(queue, vec!["b", "a"]);
    assert_eq!(clock.completed(), 1);
    assert_eq!(grade_step(&mut clock, &mut queue, "c", Grade::Good), 0);
    assert_eq!(queue, vec!["b", "a"]);
    for _ in 0..56 {
        clock.advance(1000, true);
    }
    assert_eq!(grade_step(&mut clock, &mut queue, "d", Grade::Again), 56);
    assert_eq!(queue, vec!["b", "a"]);
    assert_eq!(clock.completed(), 3);
}

#[test]
fn detaching_removes_only_the_selected_row() {
    let mut v = vec!["notes.txt", "voice.wav", "photo.png"];
    assert_eq!(detach_attachment(&mut v, 1), Some("voice.wav"));
    assert_eq!(v, vec!["notes.txt", "photo.png"]);
    assert_eq!(detach_attachment(&mut v, 5), None);
    assert_eq!(v, vec!["notes.txt", "photo.png"]);
}

#[test]
fn renaming_sets_the_trimmed_title_and_marks_it_manual() {
    let mut title = String::from("old");
    let mut manual = false;
    assert!(rename_conversation(&mut title, &mut manual, "  海外旅行の練習  ").is_ok());
    assert_eq!(title, "海外旅行の練習");
    assert!(manual);
    let mut manual = false;
    assert_eq!(
        rename_conversation(&mut title, &mut manual, "two\nlines").unwrap_err(),
        "1〜100文字。改行は入力できない。"
    );
    assert_eq!(title, "海外旅行の練習");
    assert!(!manual);
}

#[test]
fn payload_size_is_limited() {
    assert!(check_payload_size(100, 100).is_ok());
    assert_eq!(
        check_payload_size(101, 100).unwrap_err(),
        "添付テキストと会話の文脈が送信上限を超えました。添付または文脈の選択を減らしてください。"
    );
}

#[test]
fn exit_waits_for_unsaved_media_and_closes_once_it_is_handled() {
    let quiet = ExitMedia {
        unsaved_audio: false,
        annotation_frozen: false,
        annotation_text_empty: true,
        exit_requested: false,
        scroll_to_warning: false,
        media_open: false,
    };
    assert_eq!(exit_media_step(quiet, ExitEvent::CloseRequested), (quiet, ExitAction::Proceed));
    let busy = ExitMedia { unsaved_audio: true, ..quiet };
    let (warned, action) = exit_media_step(busy, ExitEvent::CloseRequested);
    assert_eq!(action, ExitAction::CancelClose);
    assert!(warned.exit_requested && warned.media_open && warned.scroll_to_warning);
    assert_eq!(exit_media_step(warned, ExitEvent::Frame), (warned, ExitAction::Proceed));
    let (kept, action) = exit_media_step(warned, ExitEvent::KeepWorking);
    assert_eq!(action, ExitAction::Proceed);
    assert!(!kept.exit_requested && kept.unsaved_audio && kept.media_open);
    let (gone, action) = exit_media_step(warned, ExitEvent::DiscardAndExit);
    assert_eq!(action, ExitAction::Close);
    assert!(!gone.unsaved_audio && !gone.media_open);
    let saved = ExitMedia { unsaved_audio: false, ..warned };
    let (closed, action) = exit_media_step(saved, ExitEvent::Frame);
    assert_eq!(action, ExitAction::Close);
    assert!(!closed.exit_requested && !closed.media_open);
}

fn frame_state() -> FrameState {
    FrameState {
        pending: true,
        flags: WorkFlags { batch_running: true, fetch_then_generate: true },
        notices: Notices::new(),
        connection_check: Some(("codex".into(), false)),
        answer: "unfinished answer".into(),
        feedback: String::new(),
        catalog_path: None,
    }
}

#[test]
fn outcomes_of_background_work_apply_to_the_question_on_screen() {
    let mut s = frame_state();
    let a = apply_outcome(&mut s, Activity::Study, "k1", "k2", "codex", WorkOutcome::Recognized("x".into()));
    assert_eq!(a, FrameAction::Discard);
    assert!(!s.pending);
    assert_eq!(s.answer, "unfinished answer");
    let mut s = frame_state();
    apply_outcome(&mut s, Activity::Study, "k", "k", "codex", WorkOutcome::Recognized("I made it.".into()));
    assert_eq!(s.answer, "I made it.");
    assert_eq!(s.notices.message, "認識結果を確認し、誤認識があれば直してから回答してください。");
    let mut s = frame_state();
    s.connection_check = Some(("codex".into(), false));
    let a = apply_outcome(&mut s, Activity::Connection, "k1", "k2", "different-cli", WorkOutcome::Connection("接続成功".into()));
    assert_eq!(a, FrameAction::Done);
    assert_eq!(s.connection_check, Some(("codex".to_string(), true)));
    assert_eq!(s.notices.message, "接続成功");
}

#[test]
fn model_choices_failures_and_lost_results() {
    let mut s = frame_state();
    let a = apply_outcome(&mut s, Activity::Models, "k", "k", " codex ", WorkOutcome::ModelChoices { path: "codex".into(), count: 2 });
    assert_eq!(a, FrameAction::StoreModelChoices);
    assert_eq!(s.catalog_path.as_deref(), Some("codex"));
    assert!(s.notices.message.starts_with("Codexから2件"));
    let mut s = frame_state();
    let a = apply_outcome(&mut s, Activity::Models, "k", "k", "other", WorkOutcome::ModelChoices { path: "codex".into(), count: 2 });
    assert_eq!(a, FrameAction::Done);
    assert_eq!(s.catalog_path, None);
    let mut s = frame_state();
    apply_outcome(&mut s, Activity::Chat, "k", "k", "codex", WorkOutcome::Failed("通信エラー".into()));
    assert!(!s.flags.batch_running && !s.flags.fetch_then_generate);
    assert!(s.notices.is_error());
    assert_eq!(s.answer, "unfinished answer");
    let mut s = frame_state();
    apply_outcome(&mut s, Activity::Chat, "k1", "k2", "codex", WorkOutcome::Lost);
    assert!(!s.pending && !s.flags.batch_running);
    assert!(s.notices.is_error());
    let mut s = frame_state();
    let a = apply_outcome(&mut s, Activity::Generate, "k", "k", "codex", WorkOutcome::Generated);
    assert_eq!(a, FrameAction::ImportGenerated);
}
