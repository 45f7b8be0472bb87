use wordweave_ui::composer::{composer_keys, ComposerEvent, EventKind, ImeEvent};
use wordweave_ui::format::time_label;
use wordweave_ui::guards::selected_material;
use wordweave_ui::notify::missing_codex_path;
use wordweave_ui::preview::text_preview;
use wordweave_ui::speech::{check_speech_start, selected_speech_button, SpeechButton};
use wordweave_ui::vocabulary::{vocabulary_counts, VocabItem};

#[test]
fn last_clicked_button_is_exclusive_and_stop_clears_it() {
    let mut selected = None;
    for (back, toggle, forward, expected) in [
        (true, false, false, SpeechButton::Back),
        (false, true, false, SpeechButton::Toggle),
        (false, false, true, SpeechButton::Forward),
    ] {
        selected = selected_speech_button(selected, back, toggle, false, forward);
        assert_eq!(selected, Some(expected));
        assert_eq!(
            selected_speech_button(selected, false, false, false, false),
            selected
        );
    }
    assert_eq!(
        selected_speech_button(selected, false, false, true, false),
        None
    );
}

#[test]
fn speech_start_is_rejected_while_recording() {
    assert!(check_speech_start(true).is_err());
    assert!(check_speech_start(false).is_ok());
}

#[test]
fn text_preview_accepts_utf8_and_utf16_but_rejects_binary() {
    assert_eq!(text_preview(b"hello\nworld"), Some(("hello\nworld".into(), false)));
    assert_eq!(text_preview(&[0xFF, 0xFE, b'A', 0, b'B', 0]), Some(("AB".into(), false)));
    assert!(text_preview(b"PDF\0binary").is_none());
    assert!(text_preview(b"%PDF-1.4\n1 0 obj\nendobj").is_none());
    assert!(text_preview(&[0xFF, 0xFE, b'A']).is_none());
}

#[test]
fn no_search_results_never_keep_an_unrelated_detail() {
    assert_eq!(selected_material(3, &[]), None);
}

#[test]
fn search_keeps_visible_selection_or_selects_first_match() {
    assert_eq!(selected_material(3, &[1, 3, 7]), Some(3));
    assert_eq!(selected_material(3, &[1, 7]), Some(1));
}

#[test]
fn only_known_executable_errors_offer_path_recovery() {
    assert!(missing_codex_path("指定したCodex実行ファイルがありません。設定で実在するファイルを選ぶか、実行ファイル欄をcodexに変更してPATHから自動検出してください。"));
    assert!(missing_codex_path("Codexが見つかりません。Codex CLIをインストールし、codex loginでChatGPTログイン後、必要なら設定でcodex.exeを選択してください。"));
    for error in [
        "認証に失敗しました",
        "ファイルが見つかりません",
        "通信エラー",
        "回答の保存先の会話が見つかりません。",
    ] {
        assert!(!missing_codex_path(error));
    }
}

fn enter(ctrl: bool) -> ComposerEvent {
    ComposerEvent {
        source: 0,
        kind: EventKind::Enter {
            pressed: true,
            repeat: false,
            ctrl,
            shift: false,
            alt: false,
            command: false,
        },
    }
}

fn ime(event: ImeEvent) -> ComposerEvent {
    ComposerEvent { source: 0, kind: EventKind::Ime(event) }
}

#[test]
fn only_focused_ctrl_enter_submits() {
    assert!(!composer_keys(&mut vec![enter(false)], true, &mut false));
    assert!(!composer_keys(&mut vec![enter(true)], false, &mut false));
    let mut events = vec![enter(true)];
    assert!(composer_keys(&mut events, true, &mut false));
    assert!(events.is_empty());
}

#[test]
fn ime_confirmation_does_not_submit() {
    let mut composing = false;
    assert!(!composer_keys(
        &mut vec![ime(ImeEvent::Preedit)],
        true,
        &mut composing
    ));
    assert!(!composer_keys(&mut vec![enter(true)], true, &mut composing));
    let mut events = vec![ime(ImeEvent::Commit), enter(false)];
    assert!(!composer_keys(&mut events, true, &mut composing));
    assert!(matches!(
        events.as_slice(),
        [ComposerEvent { kind: EventKind::Ime(ImeEvent::Commit), .. }]
    ));
    assert!(composer_keys(&mut vec![enter(true)], true, &mut composing));
}

#[test]
fn playback_time_is_bounded_and_readable() {
    // Whole seconds as the panel passes them: 42.9 s shows as 42 s, and a
    // non-finite or negative position as zero.
    assert_eq!(time_label(42), "0:42");
    assert_eq!(time_label(204), "3:24");
    assert_eq!(time_label(3601), "1:00:01");
    assert_eq!(time_label(0), "0:00");
}

const SKILLS: usize = 4;

fn entry(base: &str) -> VocabItem {
    VocabItem { base: base.into(), deleted: false, suspended: false, reviews: vec![None; SKILLS] }
}

#[test]
fn vocabulary_counts_unique_bases_and_answered_not_mastered() {
    // The first entry, a sibling with the same base, and another base.
    let mut deck = vec![entry("make a decision"), entry("make a decision"), entry("another word")];
    assert_eq!(vocabulary_counts(&deck), (2, 0));
    // A memory without reviews does not count as answered.
    deck[0].reviews[0] = Some(0);
    assert_eq!(vocabulary_counts(&deck), (2, 0));
    for skill in 0..SKILLS {
        deck[0].reviews[skill] = Some(1);
    }
    assert_eq!(vocabulary_counts(&deck), (2, 1));
    // Suspension changes nothing.
    deck[0].suspended = true;
    assert_eq!(vocabulary_counts(&deck), (2, 1));
    deck[0].deleted = true;
    assert_eq!(vocabulary_counts(&deck), (2, 0));
    deck[1].deleted = true;
    assert_eq!(vocabulary_counts(&deck), (1, 0));
    assert_eq!(vocabulary_counts(&[]), (0, 0));
}

fn egui_enter(ctrl: bool) -> egui::Event {
    egui::Event::Key {
        key: egui::Key::Enter,
        physical_key: None,
        pressed: true,
        repeat: false,
        modifiers: if ctrl { egui::Modifiers::CTRL } else { egui::Modifiers::NONE },
    }
}

/// The composer keys applied to the events of an egui frame.
fn egui_composer_keys(events: &mut Vec<egui::Event>, focused: bool, composing: &mut bool) -> bool {
    let mut mapped: Vec<ComposerEvent> = events
        .iter()
        .enumerate()
        .map(|(source, event)| ComposerEvent {
            source,
            kind: match event {
                egui::Event::Ime(egui::ImeEvent::Enabled) => EventKind::Ime(ImeEvent::Enabled),
                egui::Event::Ime(egui::ImeEvent::Preedit(_)) => EventKind::Ime(ImeEvent::Preedit),
                egui::Event::Ime(egui::ImeEvent::Commit(_)) => EventKind::Ime(ImeEvent::Commit),
                egui::Event::Ime(egui::ImeEvent::Disabled) => EventKind::Ime(ImeEvent::Disabled),
                egui::Event::Key { key: egui::Key::Enter, pressed, repeat, modifiers, .. } => {
                    EventKind::Enter {
                        pressed: *pressed,
                        repeat: *repeat,
                        ctrl: modifiers.ctrl,
                        shift: modifiers.shift,
                        alt: modifiers.alt,
                        command: modifiers.mac_cmd,
                    }
                }
                _ => EventKind::Other,
            },
        })
        .collect();
    let submit = composer_keys(&mut mapped, focused, composing);
    let kept: Vec<usize> = mapped.iter().map(|e| e.source).collect();
    let mut index = 0;
    events.retain(|_| {
        let keep = kept.contains(&index);
        index += 1;
        keep
    });
    submit
}

#[test]
fn plain_enter_inserts_newline_but_ime_confirmation_does_not() {
    let ctx = egui::Context::default();
    let id = egui::Id::new("input-test");
    let mut text = "日本語".to_owned();
    let mut composing = false;
    for (events, expected_newlines) in [
        (vec![], 0),
        (
            vec![egui::Event::Ime(egui::ImeEvent::Commit("漢字".into())), egui_enter(false)],
            0,
        ),
        (vec![egui_enter(false)], 1),
    ] {
        let _ = ctx.run(egui::RawInput { events, ..Default::default() }, |ctx| {
            egui::CentralPanel::default().show(ctx, |ui| {
                ui.memory_mut(|m| m.request_focus(id));
                ui.input_mut(|i| {
                    egui_composer_keys(&mut i.events, true, &mut composing);
                });
                ui.add(egui::TextEdit::multiline(&mut text).id(id));
            });
        });
        assert_eq!(text.matches('\n').count(), expected_newlines);
    }
}
