use vstd::prelude::*;

verus! {

/// A transport button of the speech panel that can be shown as the last one pressed.
#[derive(Clone, Copy, Debug, PartialEq, Eq, Structural)]
pub enum SpeechButton {
    Back,
    Toggle,
    Forward,
}

/// The button that stays highlighted after one frame of clicks.
pub open spec fn spec_selected_speech_button(
    previous: Option<SpeechButton>,
    back: bool,
    toggle: bool,
    stop: bool,
    forward: bool,
) -> Option<SpeechButton> {
    if stop {
        None
    } else if back {
        Some(SpeechButton::Back)
    } else if toggle {
        Some(SpeechButton::Toggle)
    } else if forward {
        Some(SpeechButton::Forward)
    } else {
        previous
    }
}

/// Stop clears the highlight; otherwise the first pressed of back, toggle and
/// forward wins, and a frame without clicks keeps the previous highlight.
pub fn selected_speech_button(
    previous: Option<SpeechButton>,
    back: bool,
    toggle: bool,
    stop: bool,
    forward: bool,
) -> (r: Option<SpeechButton>)
    ensures
        r == spec_selected_speech_button(previous, back, toggle, stop, forward),
{
    if stop {
        None
    } else if back {
        Some(SpeechButton::Back)
    } else if toggle {
        Some(SpeechButton::Toggle)
    } else if forward {
        Some(SpeechButton::Forward)
    } else {
        previous
    }
}

pub open spec fn recording_blocks_speech_message() -> Seq<char> {
    "録音中は読み上げを開始できない。録音を終了またはキャンセルしてください。"@
}

/// Speech cannot start while a recording is running.
pub fn check_speech_start(recording: bool) -> (r: Result<(), String>)
    ensures
        recording <==> r is Err,
        r matches Err(e) ==> e@ == recording_blocks_speech_message(),
{
    if recording {
        Err(String::from_str("録音中は読み上げを開始できない。録音を終了またはキャンセルしてください。"))
    } else {
        Ok(())
    }
}

} // verus!
