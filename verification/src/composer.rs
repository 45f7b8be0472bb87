//! Keyboard handling of the chat composer: Ctrl+Enter sends, a plain Enter
//! inserts a newline, and the Enter that confirms an input-method conversion
//! neither sends nor inserts.
use vstd::prelude::*;

verus! {

/// Input-method events.
#[derive(Clone, Copy, Debug, PartialEq, Eq, Structural)]
pub enum ImeEvent {
    Enabled,
    Preedit,
    Commit,
    Disabled,
}

/// The events of a frame that matter to the composer.
#[derive(Clone, Copy, Debug, PartialEq, Eq, Structural)]
pub enum EventKind {
    /// An input-method event.
    Ime(ImeEvent),
    /// The Enter key with its state and modifiers.
    Enter { pressed: bool, repeat: bool, ctrl: bool, shift: bool, alt: bool, command: bool },
    /// Any other event.
    Other,
}

/// An event of the frame, with the position of the event it stands for.
#[derive(Clone, Copy, Debug, PartialEq, Eq, Structural)]
pub struct ComposerEvent {
    pub source: usize,
    pub kind: EventKind,
}

/// The input-method event that comes last in the frame, if any.
pub open spec fn last_ime(events: Seq<ComposerEvent>) -> Option<ImeEvent>
    decreases events.len(),
{
    if events.len() == 0 {
        None
    } else {
        match events.last().kind {
            EventKind::Ime(e) => Some(e),
            _ => last_ime(events.drop_last()),
        }
    }
}

/// An Enter pressed (not repeated) with Ctrl and no other modifier.
pub open spec fn is_send_shortcut(e: ComposerEvent) -> bool {
    match e.kind {
        EventKind::Enter { pressed, repeat, ctrl, shift, alt, command } => pressed && !repeat
            && ctrl && !shift && !alt && !command,
        _ => false,
    }
}

/// The Enter events withheld from the text field: all of them in a frame of
/// input-method activity, otherwise those with Ctrl.
pub open spec fn withheld(e: ComposerEvent, ime_frame: bool) -> bool {
    match e.kind {
        EventKind::Enter { ctrl, .. } => ime_frame || ctrl,
        _ => false,
    }
}

/// The events passed on to the text field.
pub open spec fn passed_on(events: Seq<ComposerEvent>, ime_frame: bool) -> Seq<ComposerEvent>
    decreases events.len(),
{
    if events.len() == 0 {
        Seq::empty()
    } else {
        let rest = passed_on(events.drop_last(), ime_frame);
        if withheld(events.last(), ime_frame) {
            rest
        } else {
            rest.push(events.last())
        }
    }
}

/// A frame belongs to the input method when a conversion was running before
/// it or it holds an input-method event.
pub open spec fn ime_frame(events: Seq<ComposerEvent>, composing: bool) -> bool {
    composing || last_ime(events) is Some
}

/// Whether the composer sends in this frame.
pub open spec fn sends(events: Seq<ComposerEvent>, focused: bool, composing: bool) -> bool {
    focused && !ime_frame(events, composing) && exists|i: int|
        0 <= i < events.len() && is_send_shortcut(#[trigger] events[i])
}

/// Whether a conversion is running after the frame.
pub open spec fn composing_after(events: Seq<ComposerEvent>, focused: bool, composing: bool) -> bool {
    if !focused {
        false
    } else {
        match last_ime(events) {
            Some(e) => e == ImeEvent::Enabled || e == ImeEvent::Preedit,
            None => composing,
        }
    }
}

/// Handles the keys of one frame. Returns whether to send; withholds the
/// Enter events that must not reach the text field, and tracks whether an
/// input-method conversion is running. An unfocused composer neither sends
/// nor changes the events.
pub fn composer_keys(events: &mut Vec<ComposerEvent>, focused: bool, composing: &mut bool) -> (r:
    bool)
    ensures
        r == sends(old(events)@, focused, *old(composing)),
        r ==> focused && !*old(composing) && exists|i: int|
            0 <= i < old(events)@.len() && (#[trigger] old(events)@[i]).kind == (EventKind::Enter {
                pressed: true,
                repeat: false,
                ctrl: true,
                shift: false,
                alt: false,
                command: false,
            }),
        *final(composing) == composing_after(old(events)@, focused, *old(composing)),
        final(events)@ == if focused {
            passed_on(old(events)@, ime_frame(old(events)@, *old(composing)))
        } else {
            old(events)@
        },
{
    proof {
        lemma_sends_exactly_on_ctrl_enter(events@, focused, *composing);
    }
    if !focused {
        *composing = false;
        return false;
    }
    let ghost evs = events@;
    let mut frame = *composing;
    let mut last: Option<ImeEvent> = None;
    let mut shortcut = false;
    let mut i: usize = 0;
    while i < events.len()
        invariant
            events@ == evs,
            i <= evs.len(),
            last == last_ime(evs.take(i as int)),
            frame == (*old(composing) || last is Some),
            shortcut == exists|j: int| 0 <= j < i && is_send_shortcut(#[trigger] evs[j]),
        decreases evs.len() - i,
    {
        let e = events[i];
        proof {
            assert(evs.take(i as int + 1).drop_last() == evs.take(i as int));
            assert(evs.take(i as int + 1).last() == evs[i as int]);
        }
        match e.kind {
            EventKind::Ime(k) => {
                frame = true;
                last = Some(k);
            },
            EventKind::Enter { pressed, repeat, ctrl, shift, alt, command } => {
                if pressed && !repeat && ctrl && !shift && !alt && !command {
                    shortcut = true;
                }
            },
            EventKind::Other => {},
        }
        i = i + 1;
    }
    assert(evs.take(evs.len() as int) == evs);
    match last {
        Some(k) => {
            *composing = k == ImeEvent::Enabled || k == ImeEvent::Preedit;
        },
        None => {},
    }
    let submit = !frame && shortcut;
    let mut kept: Vec<ComposerEvent> = Vec::new();
    let mut j: usize = 0;
    while j < events.len()
        invariant
            events@ == evs,
            j <= evs.len(),
            kept@ == passed_on(evs.take(j as int), frame),
        decreases evs.len() - j,
    {
        let e = events[j];
        proof {
            assert(evs.take(j as int + 1).drop_last() == evs.take(j as int));
            assert(evs.take(j as int + 1).last() == evs[j as int]);
        }
        let withhold = match e.kind {
            EventKind::Enter { ctrl, .. } => frame || ctrl,
            _ => false,
        };
        if !withhold {
            kept.push(e);
        }
        j = j + 1;
    }
    *events = kept;
    submit
}

/// A frame with input-method activity never sends, so the Enter that
/// confirms a conversion cannot send the draft.
pub proof fn lemma_ime_frame_never_sends(events: Seq<ComposerEvent>, focused: bool, composing: bool)
    requires
        composing || exists|i: int| 0 <= i < events.len() && (#[trigger] events[i]).kind is Ime,
    ensures
        !sends(events, focused, composing),
{
    if !composing {
        let i = choose|i: int| 0 <= i < events.len() && (#[trigger] events[i]).kind is Ime;
        lemma_last_ime_found(events, i);
    }
}

proof fn lemma_last_ime_found(events: Seq<ComposerEvent>, i: int)
    requires
        0 <= i < events.len(),
        events[i].kind is Ime,
    ensures
        last_ime(events) is Some,
    decreases events.len(),
{
    if i < events.len() - 1 {
        match events.last().kind {
            EventKind::Ime(_) => {},
            _ => {
                assert(events.drop_last()[i] == events[i]);
                lemma_last_ime_found(events.drop_last(), i);
            },
        }
    }
}

/// An unfocused composer never sends and ends any conversion.
pub proof fn lemma_unfocused_never_sends(events: Seq<ComposerEvent>, composing: bool)
    ensures
        !sends(events, false, composing),
        !composing_after(events, false, composing),
{
}

/// Outside input-method activity, an Enter without Ctrl reaches the text
/// field (it inserts a newline) and every Enter with Ctrl is withheld.
pub proof fn lemma_plain_enter_reaches_field(events: Seq<ComposerEvent>, ime: bool)
    requires
        !ime,
    ensures
        forall|e: ComposerEvent|
            #![trigger passed_on(events, ime).contains(e)]
            events.contains(e) ==> (passed_on(events, ime).contains(e) <==> !(
            e.kind matches EventKind::Enter { ctrl, .. } && ctrl)),
    decreases events.len(),
{
    if events.len() > 0 {
        lemma_plain_enter_reaches_field(events.drop_last(), ime);
        let rest = passed_on(events.drop_last(), ime);
        assert forall|e: ComposerEvent| events.contains(e) implies (passed_on(events, ime).contains(
            e,
        ) <==> !(e.kind matches EventKind::Enter { ctrl, .. } && ctrl)) by {
            let p = passed_on(events, ime);
            let j = choose|j: int| 0 <= j < events.len() && events[j] == e;
            if !withheld(e, ime) {
                if j == events.len() - 1 {
                    assert(p[p.len() - 1] == e);
                } else {
                    assert(events.drop_last()[j] == e);
                    assert(rest.contains(e));
                    let q = choose|q: int| 0 <= q < rest.len() && rest[q] == e;
                    assert(p[q] == e);
                }
            } else {
                lemma_withheld_absent(events, ime, e);
            }
        }
    }
}

proof fn lemma_withheld_absent(events: Seq<ComposerEvent>, ime: bool, e: ComposerEvent)
    requires
        withheld(e, ime),
    ensures
        !passed_on(events, ime).contains(e),
    decreases events.len(),
{
    if events.len() > 0 {
        lemma_withheld_absent(events.drop_last(), ime, e);
        let rest = passed_on(events.drop_last(), ime);
        let p = passed_on(events, ime);
        if p.contains(e) {
            let q = choose|q: int| 0 <= q < p.len() && p[q] == e;
            if q < rest.len() {
                assert(rest[q] == e);
                assert(rest.contains(e));
            }
        }
    }
}


proof fn lemma_last_ime_some(events: Seq<ComposerEvent>)
    ensures
        last_ime(events) is Some <==> exists|i: int| 0 <= i < events.len() && (#[trigger] events[i]).kind is Ime,
    decreases events.len(),
{
    if events.len() > 0 {
        lemma_last_ime_some(events.drop_last());
        let n = events.len() - 1;
        match events.last().kind {
            EventKind::Ime(_) => {
                assert(events[n].kind is Ime);
            },
            _ => {
                if exists|i: int| 0 <= i < events.len() && (#[trigger] events[i]).kind is Ime {
                    let i = choose|i: int| 0 <= i < events.len() && (#[trigger] events[i]).kind is Ime;
                    assert(i != n);
                    assert(events.drop_last()[i] == events[i]);
                }
                if exists|i: int| 0 <= i < n && (#[trigger] events.drop_last()[i]).kind is Ime {
                    let i = choose|i: int| 0 <= i < n && (#[trigger] events.drop_last()[i]).kind is Ime;
                    assert(events.drop_last()[i] == events[i]);
                }
            },
        }
    }
}

/// The composer sends exactly when it is focused, no conversion was running
/// and none takes place in the frame, and the frame holds a press (not a
/// repeat) of Enter with Ctrl and no other modifier. A released key, a
/// repeat, a plain Enter or one with Shift, Alt or Command never sends.
pub proof fn lemma_sends_exactly_on_ctrl_enter(events: Seq<ComposerEvent>, focused: bool, composing: bool)
    ensures
        sends(events, focused, composing) <==> (focused && !composing && (forall|i: int|
            0 <= i < events.len() ==> !((#[trigger] events[i]).kind is Ime)) && exists|i: int|
            0 <= i < events.len() && (#[trigger] events[i]).kind == (EventKind::Enter {
                pressed: true,
                repeat: false,
                ctrl: true,
                shift: false,
                alt: false,
                command: false,
            })),
{
    lemma_last_ime_some(events);
    let key = EventKind::Enter {
        pressed: true,
        repeat: false,
        ctrl: true,
        shift: false,
        alt: false,
        command: false,
    };
    assert forall|i: int| 0 <= i < events.len() implies is_send_shortcut(#[trigger] events[i]) == (
    events[i].kind == key) by {}
}

} // verus!
