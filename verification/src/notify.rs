//! Notification state: which message is an alert, when the details window opens,
//! and why a dismissed alert stays dismissed.
use vstd::prelude::*;
use crate::chars::{same_text, starts_with};

verus! {

pub open spec fn missing_path_prefix() -> Seq<char> {
    "指定したCodex実行ファイルがありません。"@
}

pub open spec fn not_found_prefix() -> Seq<char> {
    "Codexが見つかりません。"@
}

pub open spec fn unset_path_message() -> Seq<char> {
    "Codexの実行ファイルを指定してください。"@
}

/// The messages after which the user is offered to fix the executable path.
pub open spec fn spec_missing_codex_path(message: Seq<char>) -> bool {
    ||| missing_path_prefix().is_prefix_of(message)
    ||| not_found_prefix().is_prefix_of(message)
    ||| message == unset_path_message()
}

/// Whether a message reports that the Codex executable could not be found.
pub fn missing_codex_path(message: &str) -> (r: bool)
    ensures
        r == spec_missing_codex_path(message@),
{
    starts_with(message, "指定したCodex実行ファイルがありません。") || starts_with(
        message,
        "Codexが見つかりません。",
    ) || same_text(message, "Codexの実行ファイルを指定してください。")
}

/// The pages of the application.
#[derive(Clone, Copy, Debug, PartialEq, Eq, Structural)]
pub enum Page {
    Home,
    Study,
    Deck,
    Words,
    Chat,
    Stats,
    Settings,
}

/// Everything the status button and the details window show, and what the
/// window has already presented.
pub struct Notices {
    /// The error that stopped saving, if any.
    pub fatal: Option<String>,
    /// The last status message.
    pub message: String,
    /// A notice about a missing font.
    pub font_notice: String,
    /// The message as it was reported as an error, if it was.
    pub error: String,
    /// The message as it was reported as a warning or refusal, if it was.
    pub attention: String,
    /// Whether the details window is open.
    pub open: bool,
    /// Whether the settings page shows the executable-path guidance.
    pub path_guidance: bool,
    /// Whether the executable-path field should take the focus.
    pub path_focus_pending: bool,
    seen_fatal: String,
    seen_message: String,
    seen_font: String,
}

/// The abstract state of the notices, every text as its characters.
pub struct NoticesView {
    pub fatal: Option<Seq<char>>,
    pub message: Seq<char>,
    pub font_notice: Seq<char>,
    pub error: Seq<char>,
    pub attention: Seq<char>,
    pub open: bool,
    pub path_guidance: bool,
    pub path_focus_pending: bool,
    pub seen: (Seq<char>, Seq<char>, Seq<char>),
}

impl View for Notices {
    type V = NoticesView;

    closed spec fn view(&self) -> NoticesView {
        NoticesView {
            fatal: match self.fatal {
                Some(f) => Some(f@),
                None => None,
            },
            message: self.message@,
            font_notice: self.font_notice@,
            error: self.error@,
            attention: self.attention@,
            open: self.open,
            path_guidance: self.path_guidance,
            path_focus_pending: self.path_focus_pending,
            seen: (self.seen_fatal@, self.seen_message@, self.seen_font@),
        }
    }
}

impl NoticesView {
    /// The fatal error as text, empty where there is none.
    pub open spec fn fatal_text(self) -> Seq<char> {
        match self.fatal {
            Some(f) => f,
            None => Seq::empty(),
        }
    }

    /// The message as an alert: it interrupts only when it names a missing
    /// executable or was reported as an error or a warning.
    pub open spec fn message_alert(self) -> Seq<char> {
        if spec_missing_codex_path(self.message) || (self.message.len() != 0 && (self.message
            == self.error || self.message == self.attention)) {
            self.message
        } else {
            Seq::empty()
        }
    }

    /// The three alerts: the fatal error, the message and the font notice.
    pub open spec fn alerts(self) -> (Seq<char>, Seq<char>, Seq<char>) {
        (self.fatal_text(), self.message_alert(), self.font_notice)
    }

    /// Whether the notice is shown as an error.
    pub open spec fn is_error(self) -> bool {
        ||| self.fatal is Some
        ||| spec_missing_codex_path(self.message)
        ||| (self.message.len() != 0 && self.message == self.error)
    }

    /// The window opens when some alert differs from what was last presented
    /// and is not empty; every alert is then remembered as presented.
    /// While work is running nothing changes.
    pub open spec fn refreshed(self, busy: bool) -> NoticesView {
        if busy {
            self
        } else {
            let a = self.alerts();
            let changed = (a.0 != self.seen.0 && a.0.len() != 0) || (a.1 != self.seen.1
                && a.1.len() != 0) || (a.2 != self.seen.2 && a.2.len() != 0);
            NoticesView { open: self.open || changed, seen: a, ..self }
        }
    }

    /// The details text: the non-empty parts among the fatal error, the
    /// message and the font notice, separated by a blank line.
    pub open spec fn text(self) -> Seq<char> {
        join_nonempty(seq![self.fatal_text(), self.message, self.font_notice])
    }
}

/// Joins the non-empty parts with a blank line between them.
pub open spec fn join_nonempty(parts: Seq<Seq<char>>) -> Seq<char>
    decreases parts.len(),
{
    if parts.len() == 0 {
        Seq::empty()
    } else {
        let rest = join_nonempty(parts.drop_last());
        let last = parts.last();
        if last.len() == 0 {
            rest
        } else if rest.len() == 0 {
            last
        } else {
            rest + "\n\n"@ + last
        }
    }
}

fn appended(text: &mut String, part: &str)
    ensures
        final(text)@ == (if part@.len() == 0 {
            old(text)@
        } else if old(text)@.len() == 0 {
            part@
        } else {
            old(text)@ + "\n\n"@ + part@
        }),
{
    if part.is_empty() {
        return ;
    }
    if !text.as_str().is_empty() {
        text.append("\n\n");
    }
    text.append(part);
}

impl Notices {
    /// No message, no alert, the window closed.
    pub fn new() -> (r: Notices)
        ensures
            r@.fatal is None,
            r@.message.len() == 0,
            r@.font_notice.len() == 0,
            r@.error.len() == 0,
            r@.attention.len() == 0,
            !r@.open,
            !r@.path_guidance,
            !r@.path_focus_pending,
            r@.seen == (Seq::<char>::empty(), Seq::<char>::empty(), Seq::<char>::empty()),
    {
        Notices {
            fatal: None,
            message: String::new(),
            font_notice: String::new(),
            error: String::new(),
            attention: String::new(),
            open: false,
            path_guidance: false,
            path_focus_pending: false,
            seen_fatal: String::new(),
            seen_message: String::new(),
            seen_font: String::new(),
        }
    }

    /// Reports a failure: the message becomes an error, and the window opens
    /// at the next refresh even if the same text was dismissed before.
    pub fn notify_error(&mut self, message: String)
        ensures
            final(self)@ == old(self)@.error_reported(message@),
    {
        self.error = message.clone();
        self.message = message;
        self.attention = String::new();
        self.seen_message = String::new();
    }

    /// Shows the failure of background work as the message, in the error
    /// colour, leaving the rest as it was.
    pub fn show_failure(&mut self, message: String)
        ensures
            final(self)@ == old(self)@.failure_shown(message@),
    {
        self.error = message.clone();
        self.message = message;
    }

    /// Replaces the status message; how earlier messages were reported stays.
    pub fn set_message(&mut self, message: String)
        ensures
            final(self)@ == old(self)@.with_message(message@),
    {
        self.message = message;
    }

    /// Reports a warning: it needs attention but is not an error.
    pub fn notify_warning(&mut self, message: String)
        ensures
            final(self)@ == old(self)@.attention_reported(message@),
    {
        self.notify_attention(message);
    }

    /// Reports a refused request: it needs attention but is not an error.
    pub fn notify_blocked(&mut self, message: String)
        ensures
            final(self)@ == old(self)@.attention_reported(message@),
    {
        self.notify_attention(message);
    }

    fn notify_attention(&mut self, message: String)
        ensures
            final(self)@ == old(self)@.attention_reported(message@),
    {
        self.attention = message.clone();
        self.message = message;
        self.error = String::new();
        self.seen_message = String::new();
    }

    /// Shows the outcome of an operation: a success is information, a
    /// failure is reported as an error.
    pub fn notify_result(&mut self, result: Result<String, String>)
        ensures
            match result {
                Ok(m) => final(self)@ == old(self)@.information_reported(m@),
                Err(e) => final(self)@ == old(self)@.error_reported(e@),
            },
    {
        match result {
            Ok(message) => {
                self.message = message;
                self.error = String::new();
                self.attention = String::new();
            },
            Err(error) => self.notify_error(error),
        }
    }

    /// Whether the notice is shown in the error color.
    pub fn is_error(&self) -> (r: bool)
        ensures
            r == self@.is_error(),
    {
        self.fatal.is_some() || missing_codex_path(self.message.as_str()) || (
        !self.message.as_str().is_empty() && self.message == self.error)
    }

    /// The details text of the notice.
    pub fn text(&self) -> (r: String)
        ensures
            r@ == self@.text(),
    {
        let mut text = String::new();
        match &self.fatal {
            Some(f) => appended(&mut text, f.as_str()),
            None => {},
        }
        appended(&mut text, self.message.as_str());
        appended(&mut text, self.font_notice.as_str());
        proof {
            reveal_with_fuel(join_nonempty, 4);
            let parts = seq![self@.fatal_text(), self@.message, self@.font_notice];
            assert(parts.drop_last() == seq![self@.fatal_text(), self@.message]);
            assert(parts.drop_last().drop_last() == seq![self@.fatal_text()]);
            assert(parts.drop_last().drop_last().drop_last() == Seq::<Seq<char>>::empty());
        }
        text
    }

    fn message_alert(&self) -> (r: String)
        ensures
            r@ == self@.message_alert(),
    {
        if missing_codex_path(self.message.as_str()) || (!self.message.as_str().is_empty() && (
        self.message == self.error || self.message == self.attention)) {
            self.message.clone()
        } else {
            String::new()
        }
    }

    /// Opens the window for an alert that has not been presented yet. While
    /// work is running (`busy`) alerts are deferred and nothing changes.
    pub fn refresh(&mut self, busy: bool)
        ensures
            final(self)@ == old(self)@.refreshed(busy),
    {
        if busy {
            return ;
        }
        let fatal = match &self.fatal {
            Some(f) => f.clone(),
            None => String::new(),
        };
        let message = self.message_alert();
        let font = self.font_notice.clone();
        let mut changed = false;
        if !(fatal == self.seen_fatal) && !fatal.as_str().is_empty() {
            changed = true;
        }
        if !(message == self.seen_message) && !message.as_str().is_empty() {
            changed = true;
        }
        if !(font == self.seen_font) && !font.as_str().is_empty() {
            changed = true;
        }
        if changed {
            self.open = true;
        }
        self.seen_fatal = fatal;
        self.seen_message = message;
        self.seen_font = font;
    }

    /// Leaves the page for the executable-path field in the settings.
    pub fn open_codex_path_guidance(&mut self, page: &mut Page)
        ensures
            *final(page) == Page::Settings,
            final(self)@ == (NoticesView {
                open: false,
                path_guidance: true,
                path_focus_pending: true,
                ..old(self)@
            }),
    {
        *page = Page::Settings;
        self.path_guidance = true;
        self.path_focus_pending = true;
        self.open = false;
    }
}

impl NoticesView {
    /// The state after a failure with the given message.
    pub open spec fn error_reported(self, message: Seq<char>) -> NoticesView {
        NoticesView {
            message: message,
            error: message,
            attention: Seq::empty(),
            seen: (self.seen.0, Seq::empty(), self.seen.2),
            ..self
        }
    }

    /// The state with another status message.
    pub open spec fn with_message(self, message: Seq<char>) -> NoticesView {
        NoticesView { message: message, ..self }
    }

    /// The state after a background failure: the message is the error,
    /// shown as an error; what was presented before is kept.
    pub open spec fn failure_shown(self, message: Seq<char>) -> NoticesView {
        NoticesView { message: message, error: message, ..self }
    }

    /// The state after a successful operation with the given message.
    pub open spec fn information_reported(self, message: Seq<char>) -> NoticesView {
        NoticesView { message: message, error: Seq::empty(), attention: Seq::empty(), ..self }
    }

    /// The state after a warning or refused request with the given message.
    pub open spec fn attention_reported(self, message: Seq<char>) -> NoticesView {
        NoticesView {
            message: message,
            attention: message,
            error: Seq::empty(),
            seen: (self.seen.0, Seq::empty(), self.seen.2),
            ..self
        }
    }
}

/// A dismissed alert stays dismissed: once the window has presented the
/// current alerts, closing it (or leaving it open) survives any number of
/// further refreshes until some alert changes.
pub proof fn lemma_dismissed_alert_stays_dismissed(v: NoticesView, open: bool)
    ensures
        (NoticesView { open: open, ..v.refreshed(false) }).refreshed(false) == (NoticesView {
            open: open,
            ..v.refreshed(false)
        }),
{
}

/// A failure with a non-empty message opens the window at the next idle
/// refresh, even when the same text was reported and dismissed before.
pub proof fn lemma_failure_opens(v: NoticesView, message: Seq<char>)
    requires
        message.len() != 0,
    ensures
        v.error_reported(message).refreshed(false).open,
        v.error_reported(message).is_error(),
{
}

/// A warning or refused request with a non-empty message opens the window at
/// the next idle refresh; it is an error only when saving has stopped or the
/// executable is missing.
pub proof fn lemma_attention_opens_without_error(v: NoticesView, message: Seq<char>)
    requires
        message.len() != 0,
    ensures
        v.attention_reported(message).refreshed(false).open,
        v.attention_reported(message).is_error() == (v.fatal is Some || spec_missing_codex_path(
            message,
        )),
{
}

/// Information never interrupts: a successful result that does not name a
/// missing executable leaves a closed window closed, provided the fatal error
/// and the font notice had already been presented.
pub proof fn lemma_information_does_not_open(v: NoticesView, message: Seq<char>)
    requires
        !v.open,
        !spec_missing_codex_path(message),
        v.seen.0 == v.fatal_text(),
        v.seen.2 == v.font_notice,
    ensures
        !v.information_reported(message).refreshed(false).open,
        v.information_reported(message).is_error() == (v.fatal is Some),
{
}

/// While work is running, alerts are deferred: a refresh changes nothing.
pub proof fn lemma_busy_defers_alerts(v: NoticesView)
    ensures
        v.refreshed(true) == v,
{
}

} // verus!
