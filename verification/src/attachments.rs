//! Attaching files to the unsent message of a conversation: the limit of
//! eight attachments, dropped files waiting for confirmation, the report of
//! a batch, and the consent to send text attachments.
use vstd::prelude::*;
use crate::format::{decimal, push_decimal};
use crate::text::{trim, trimmed};
use crate::distinct::{same_texts, texts_equal};

verus! {

/// One message carries at most this many attachments.
pub const MAX_ATTACHMENTS: usize = 8;

/// An attached file holds at most this many bytes (12 MiB).
pub const MAX_ASSET_BYTES: usize = 12_582_912;

/// The images sent with one question hold at most this many bytes together.
pub const MAX_IMAGE_BYTES: usize = 12_000_000;

/// The text attachments sent with one question hold at most this many bytes.
pub const MAX_CHAT_TEXT_BYTES: usize = 32_000;

pub open spec fn busy_message() -> Seq<char> {
    "処理中は添付できません。処理完了後、もう一度ドロップしてください。"@
}

pub open spec fn drop_pending_message() -> Seq<char> {
    "先のファイル添付を確認またはキャンセルしてから、もう一度ドロップしてください。"@
}

pub open spec fn no_path_message() -> Seq<char> {
    "ファイルのパスを取得できません。ファイル選択から添付してください。"@
}

pub open spec fn too_many_dropped_message(existing: nat, dropped: nat) -> Seq<char> {
    "添付は一つの発言につき8件までです。現在"@ + decimal(existing) + "件あるため、"@ + decimal(dropped)
        + "件をまとめて追加できません。今回のドロップは保存していません。"@
}

/// Files dropped on a conversation, waiting for the user to confirm them.
#[derive(Debug)]
pub struct DropProposal<P> {
    /// The conversation the files were dropped on.
    pub chat_id: String,
    /// The files whose paths are known.
    pub files: Vec<P>,
    /// The number of dropped files without a path.
    pub unsupported: usize,
}

/// Proposes to attach dropped files. Nothing is proposed while work runs,
/// while another drop waits for confirmation, when no file has a path, or
/// when the files would take the message past eight attachments.
pub fn offer_drop<P>(
    chat_id: String,
    paths: Vec<P>,
    dropped: usize,
    existing: usize,
    idle: bool,
    consent_pending: bool,
    drop_pending: bool,
) -> (r: Result<DropProposal<P>, String>)
    requires
        paths@.len() <= dropped,
    ensures
        match r {
            Ok(p) => {
                &&& idle && !consent_pending && !drop_pending
                &&& paths@.len() > 0
                &&& existing + paths@.len() <= MAX_ATTACHMENTS
                &&& p.chat_id == chat_id
                &&& p.files@ == paths@
                &&& p.unsupported == dropped - paths@.len()
            },
            Err(m) => if !idle || consent_pending {
                m@ == busy_message()
            } else if drop_pending {
                m@ == drop_pending_message()
            } else if paths@.len() == 0 {
                m@ == no_path_message()
            } else {
                existing + paths@.len() > MAX_ATTACHMENTS && m@ == too_many_dropped_message(
                    existing as nat,
                    paths@.len(),
                )
            },
        },
{
    if !idle || consent_pending {
        return Err(String::from_str("処理中は添付できません。処理完了後、もう一度ドロップしてください。"));
    }
    if drop_pending {
        return Err(
            String::from_str(
                "先のファイル添付を確認またはキャンセルしてから、もう一度ドロップしてください。",
            ),
        );
    }
    if paths.len() == 0 {
        return Err(String::from_str("ファイルのパスを取得できません。ファイル選択から添付してください。"));
    }
    if existing > MAX_ATTACHMENTS || paths.len() > MAX_ATTACHMENTS - existing {
        let mut m = String::from_str("添付は一つの発言につき8件までです。現在");
        push_decimal(&mut m, existing as u64);
        m.append("件あるため、");
        push_decimal(&mut m, paths.len() as u64);
        m.append("件をまとめて追加できません。今回のドロップは保存していません。");
        return Err(m);
    }
    let unsupported = dropped - paths.len();
    Ok(DropProposal { chat_id, files: paths, unsupported })
}

pub open spec fn drop_changed_message() -> Seq<char> {
    "会話が切り替わったか処理中のため、ファイルは添付していません。"@
}

pub open spec fn count_changed_message(existing: nat) -> Seq<char> {
    "確認中に添付数が変わった。上限は8件で、現在"@ + decimal(existing) + "件あるため今回は保存していません。"@
}

/// Whether confirmed files may now be attached: the same conversation must
/// still be selected with nothing running, and the attachments present now
/// plus the confirmed ones must stay within eight.
pub fn confirm_drop(can_edit: bool, existing: usize, files: usize) -> (r: Result<(), String>)
    ensures
        r is Ok <==> (can_edit && existing + files <= MAX_ATTACHMENTS),
        r matches Err(m) ==> if !can_edit {
            m@ == drop_changed_message()
        } else {
            m@ == count_changed_message(existing as nat)
        },
{
    if !can_edit {
        return Err(String::from_str("会話が切り替わったか処理中のため、ファイルは添付していません。"));
    }
    if existing > MAX_ATTACHMENTS || files > MAX_ATTACHMENTS - existing {
        let mut m = String::from_str("確認中に添付数が変わった。上限は8件で、現在");
        push_decimal(&mut m, existing as u64);
        m.append("件あるため今回は保存していません。");
        return Err(m);
    }
    Ok(())
}

/// The report of a batch of attachments: which of them were attached, and
/// the first error of those that were not.
pub open spec fn attach_report(
    attached: nat,
    failed: nat,
    first_name: Option<Seq<char>>,
    first_error: Option<Seq<char>>,
) -> Seq<char> {
    let name = match first_name {
        Some(n) => n,
        None => "ファイル"@,
    };
    let error = match first_error {
        Some(e) => e,
        None => if failed > 0 {
            "このファイルのパスを取得できません。ファイル選択から添付してください。"@
        } else {
            "不明なエラー"@
        },
    };
    if attached == 1 && failed == 0 {
        name + "をメッセージに添付した。送信前に内容を確認できる。"@
    } else if failed == 0 {
        decimal(attached) + "件をメッセージに添付した。送信前に内容を確認できる。"@
    } else if attached == 0 {
        decimal(failed) + "件を添付できなかった："@ + error
    } else {
        decimal(attached) + "件をメッセージに添付した。"@ + decimal(failed) + "件は添付できなかった："@
            + error
    }
}

/// The message after a batch of attachments; it is a warning when some file
/// could not be attached.
pub fn attach_summary(
    attached: usize,
    failed: usize,
    first_name: Option<String>,
    first_error: Option<String>,
) -> (r: (String, bool))
    ensures
        r.0@ == attach_report(
            attached as nat,
            failed as nat,
            match first_name {
                Some(n) => Some(n@),
                None => None,
            },
            match first_error {
                Some(e) => Some(e@),
                None => None,
            },
        ),
        r.1 == (failed > 0),
{
    let error = match first_error {
        Some(e) => e,
        None => if failed > 0 {
            String::from_str("このファイルのパスを取得できません。ファイル選択から添付してください。")
        } else {
            String::from_str("不明なエラー")
        },
    };
    let mut m = String::new();
    if attached == 1 && failed == 0 {
        match first_name {
            Some(n) => m.append(n.as_str()),
            None => m.append("ファイル"),
        }
        m.append("をメッセージに添付した。送信前に内容を確認できる。");
    } else if failed == 0 {
        push_decimal(&mut m, attached as u64);
        m.append("件をメッセージに添付した。送信前に内容を確認できる。");
    } else if attached == 0 {
        push_decimal(&mut m, failed as u64);
        m.append("件を添付できなかった：");
        m.append(error.as_str());
    } else {
        push_decimal(&mut m, attached as u64);
        m.append("件をメッセージに添付した。");
        push_decimal(&mut m, failed as u64);
        m.append("件は添付できなかった：");
        m.append(error.as_str());
    }
    (m, failed > 0)
}

pub open spec fn trashed_message() -> Seq<char> {
    "ごみ箱の会話には添付できません。"@
}

pub open spec fn full_message() -> Seq<char> {
    "一つの発言の添付は8件までです。"@
}

pub open spec fn oversized_message() -> Seq<char> {
    "添付ファイルは12MiB以下にしてください。"@
}

/// Whether one more file may be attached to a conversation's message: not
/// to a conversation in the trash, not beyond eight attachments, and not a
/// file above 12 MiB.
pub fn check_attach(deleted: bool, existing: usize, size: u64) -> (r: Result<(), String>)
    ensures
        r is Ok <==> (!deleted && existing < MAX_ATTACHMENTS && size <= MAX_ASSET_BYTES),
        r matches Err(m) ==> if deleted {
            m@ == trashed_message()
        } else if existing >= MAX_ATTACHMENTS {
            m@ == full_message()
        } else {
            m@ == oversized_message()
        },
{
    if deleted {
        return Err(String::from_str("ごみ箱の会話には添付できません。"));
    }
    if existing >= MAX_ATTACHMENTS {
        return Err(String::from_str("一つの発言の添付は8件までです。"));
    }
    if size > MAX_ASSET_BYTES as u64 {
        return Err(String::from_str("添付ファイルは12MiB以下にしてください。"));
    }
    Ok(())
}

/// The kinds of stored attachments.
#[derive(Clone, Copy, Debug, PartialEq, Eq, Structural)]
pub enum AssetKind {
    ImagePng,
    ImageBmp,
    ImageGif,
    ImageJpeg,
    AudioWav,
    FileBlob,
}

/// The character in ASCII lower case.
pub open spec fn ascii_lower(c: char) -> char {
    if 'A' <= c <= 'Z' {
        ((c as u32) + 32) as char
    } else {
        c
    }
}

pub open spec fn lower_is(ext: Seq<char>, word: Seq<char>) -> bool {
    ext.len() == word.len() && forall|i: int| 0 <= i < ext.len() ==> ascii_lower(#[trigger] ext[i])
        == word[i]
}

/// The kind of a file by its extension, compared in ASCII lower case.
pub open spec fn spec_kind_for_extension(ext: Option<Seq<char>>) -> AssetKind {
    match ext {
        Some(e) => if lower_is(e, "png"@) {
            AssetKind::ImagePng
        } else if lower_is(e, "bmp"@) {
            AssetKind::ImageBmp
        } else if lower_is(e, "gif"@) {
            AssetKind::ImageGif
        } else if lower_is(e, "jpg"@) || lower_is(e, "jpeg"@) {
            AssetKind::ImageJpeg
        } else if lower_is(e, "wav"@) {
            AssetKind::AudioWav
        } else {
            AssetKind::FileBlob
        },
        None => AssetKind::FileBlob,
    }
}

fn lower_equals(ext: &[char], word: &str) -> (r: bool)
    ensures
        r == lower_is(ext@, word@),
{
    let w = crate::chars::chars_of(word);
    if ext.len() != w.len() {
        return false;
    }
    let mut i: usize = 0;
    while i < ext.len()
        invariant
            ext@.len() == w@.len(),
            w@ == word@,
            i <= ext@.len(),
            forall|j: int| 0 <= j < i ==> ascii_lower(#[trigger] ext@[j]) == w@[j],
        decreases ext@.len() - i,
    {
        let c = ext[i];
        let lower = if 'A' <= c && c <= 'Z' {
            ascii_lowered(c)
        } else {
            c
        };
        if lower != w[i] {
            return false;
        }
        i = i + 1;
    }
    true
}

fn ascii_lowered(c: char) -> (r: char)
    requires
        'A' <= c <= 'Z',
    ensures
        r == ascii_lower(c),
{
    let u = c as u32 + 32;
    proof {
        assert(0x61 <= u <= 0x7A);
    }
    char_from_ascii(u)
}

/// `char::from_u32` on a lower-case ASCII letter.
fn char_from_ascii(u: u32) -> (r: char)
    requires
        0x61 <= u <= 0x7A,
    ensures
        r == u as char,
{
    let b: u8 = u as u8;
    b as char
}

/// The kind under which a file is stored, by its extension.
pub fn kind_for_extension(ext: Option<&str>) -> (r: AssetKind)
    ensures
        r == spec_kind_for_extension(
            match ext {
                Some(e) => Some(e@),
                None => None,
            },
        ),
{
    match ext {
        Some(e) => {
            let cs = crate::chars::chars_of(e);
            if lower_equals(cs.as_slice(), "png") {
                AssetKind::ImagePng
            } else if lower_equals(cs.as_slice(), "bmp") {
                AssetKind::ImageBmp
            } else if lower_equals(cs.as_slice(), "gif") {
                AssetKind::ImageGif
            } else if lower_equals(cs.as_slice(), "jpg") || lower_equals(cs.as_slice(), "jpeg") {
                AssetKind::ImageJpeg
            } else if lower_equals(cs.as_slice(), "wav") {
                AssetKind::AudioWav
            } else {
                AssetKind::FileBlob
            }
        },
        None => AssetKind::FileBlob,
    }
}

pub open spec fn image_budget_message() -> Seq<char> {
    "送信画像は8件・合計12MBまでです。根拠の選択を減らしてください。"@
}

/// Admits one more image to a question: the new total of bytes, or an error
/// once the images would exceed 12 MB together or number more than eight.
pub fn admit_image(total: usize, count: usize, len: usize) -> (r: Result<usize, String>)
    ensures
        match r {
            Ok(t) => t == total + len && total + len <= MAX_IMAGE_BYTES && count < 8,
            Err(m) => (total + len > MAX_IMAGE_BYTES || count >= 8) && m@ == image_budget_message(),
        },
{
    if count >= 8 || total > MAX_IMAGE_BYTES || len > MAX_IMAGE_BYTES - total {
        return Err(String::from_str("送信画像は8件・合計12MBまでです。根拠の選択を減らしてください。"));
    }
    Ok(total + len)
}

pub open spec fn text_budget_message() -> Seq<char> {
    "Codexへ送る添付テキストは合計32KB以下にしてください。大きいファイルはアプリ内で表示できます。"@
}

/// Admits one more text attachment to a question: the new total of UTF-8
/// bytes, or an error when the preview was cut or the texts would exceed
/// 32 KB together.
pub fn admit_text(total: usize, text: &str, truncated: bool) -> (r: Result<usize, String>)
    ensures
        match r {
            Ok(t) => !truncated && t == total + text.len() && t <= MAX_CHAT_TEXT_BYTES,
            Err(m) => (truncated || total + text.len() > MAX_CHAT_TEXT_BYTES) && m@
                == text_budget_message(),
        },
{
    let len = text.len();
    if truncated || total > MAX_CHAT_TEXT_BYTES || len > MAX_CHAT_TEXT_BYTES - total {
        return Err(
            String::from_str(
                "Codexへ送る添付テキストは合計32KB以下にしてください。大きいファイルはアプリ内で表示できます。",
            ),
        );
    }
    Ok(total + len)
}

/// What the consent to send text attachments was given for.
pub struct ChatFileConsent {
    pub chat_id: String,
    pub question: String,
    pub attachment_ids: Vec<String>,
    pub attachment_names: Vec<Option<String>>,
    pub labels: Vec<String>,
    pub text_names: Vec<String>,
}

/// The unsent message of a conversation as the consent compares it.
pub struct ChatDraft {
    pub id: String,
    pub deleted: bool,
    pub draft: String,
    pub attachment_ids: Vec<String>,
    pub attachment_names: Vec<Option<String>>,
}

pub open spec fn opt_text(o: Option<String>) -> Option<Seq<char>> {
    match o {
        Some(s) => Some(s@),
        None => None,
    }
}

pub open spec fn same_names(a: Seq<Option<String>>, b: Seq<Option<String>>) -> bool {
    a.len() == b.len() && forall|i: int| 0 <= i < a.len() ==> opt_text(#[trigger] a[i]) == opt_text(
        b[i],
    )
}

fn names_equal(a: &Vec<Option<String>>, b: &Vec<Option<String>>) -> (r: bool)
    ensures
        r == same_names(a@, b@),
{
    if a.len() != b.len() {
        return false;
    }
    let mut i: usize = 0;
    while i < a.len()
        invariant
            a@.len() == b@.len(),
            i <= a@.len(),
            forall|j: int| 0 <= j < i ==> opt_text(#[trigger] a@[j]) == opt_text(b@[j]),
        decreases a@.len() - i,
    {
        let same = match (&a[i], &b[i]) {
            (Some(x), Some(y)) => *x == *y,
            (None, None) => true,
            _ => false,
        };
        if !same {
            return false;
        }
        i = i + 1;
    }
    true
}

impl ChatFileConsent {
    /// The consent still applies when the conversation is not in the trash,
    /// and its trimmed question and its attachments (identity and name, in
    /// order) are those the user approved.
    pub open spec fn applies_to(self, chat: ChatDraft) -> bool {
        &&& !chat.deleted
        &&& chat.id@ == self.chat_id@
        &&& trimmed(chat.draft@) == self.question@
        &&& same_texts(chat.attachment_ids@, self.attachment_ids@)
        &&& same_names(chat.attachment_names@, self.attachment_names@)
    }

    /// Whether the approved question and attachments are still unchanged.
    pub fn matches(&self, chat: &ChatDraft) -> (r: bool)
        ensures
            r == self.applies_to(*chat),
            r <==> (!chat.deleted && chat.id@ == self.chat_id@ && trimmed(chat.draft@) == self.question@
                && chat.attachment_ids@.len() == self.attachment_ids@.len() && (forall|i: int|
                0 <= i < chat.attachment_ids@.len() ==> (#[trigger] chat.attachment_ids@[i])@
                == self.attachment_ids@[i]@) && chat.attachment_names@.len()
                == self.attachment_names@.len() && (forall|i: int|
                0 <= i < chat.attachment_names@.len() ==> match (
                    #[trigger] chat.attachment_names@[i],
                    self.attachment_names@[i],
                ) {
                    (Some(x), Some(y)) => x@ == y@,
                    (None, None) => true,
                    _ => false,
                })),
    {
        proof {
            lemma_consent_needs_unchanged_message(*self, *chat);
        }
        !chat.deleted && chat.id == self.chat_id && trim(chat.draft.as_str()) == self.question
            && texts_equal(&chat.attachment_ids, &self.attachment_ids) && names_equal(
            &chat.attachment_names,
            &self.attachment_names,
        )
    }
}


/// Takes the attachment in the given row out of the unsent message; a row
/// past the end takes nothing.
pub fn detach_attachment<A>(v: &mut Vec<A>, row: usize) -> (r: Option<A>)
    ensures
        row < old(v)@.len() ==> r == Some(old(v)@[row as int]) && final(v)@ == old(v)@.remove(
            row as int,
        ),
        row >= old(v)@.len() ==> r is None && final(v)@ == old(v)@,
{
    if row < v.len() {
        Some(v.remove(row))
    } else {
        None
    }
}

pub open spec fn context_limit_message() -> Seq<char> {
    "添付テキストと会話の文脈が送信上限を超えました。添付または文脈の選択を減らしてください。"@
}

/// A question with text attachments is sent only while its serialized
/// payload stays within the limit of bytes.
pub fn check_payload_size(bytes: usize, limit: usize) -> (r: Result<(), String>)
    ensures
        r is Ok <==> bytes <= limit,
        r matches Err(m) ==> m@ == context_limit_message(),
{
    if bytes > limit {
        return Err(
            String::from_str(
                "添付テキストと会話の文脈が送信上限を超えました。添付または文脈の選択を減らしてください。",
            ),
        );
    }
    Ok(())
}


/// The consent to send text attachments holds exactly while the
/// conversation is not in the trash, is the one approved, its trimmed draft
/// is the approved question, and its attachments are the approved ones, with
/// the same names, in the same order: editing the question or changing an
/// attachment withdraws it.
pub proof fn lemma_consent_needs_unchanged_message(c: ChatFileConsent, chat: ChatDraft)
    ensures
        c.applies_to(chat) <==> (!chat.deleted && chat.id@ == c.chat_id@ && trimmed(chat.draft@) == c.question@
                && chat.attachment_ids@.len() == c.attachment_ids@.len() && (forall|i: int|
                0 <= i < chat.attachment_ids@.len() ==> (#[trigger] chat.attachment_ids@[i])@
                == c.attachment_ids@[i]@) && chat.attachment_names@.len()
                == c.attachment_names@.len() && (forall|i: int|
                0 <= i < chat.attachment_names@.len() ==> match (
                    #[trigger] chat.attachment_names@[i],
                    c.attachment_names@[i],
                ) {
                    (Some(x), Some(y)) => x@ == y@,
                    (None, None) => true,
                    _ => false,
                })),
{
    assert forall|i: int| 0 <= i < chat.attachment_names@.len() implies (opt_text(
        #[trigger] chat.attachment_names@[i],
    ) == opt_text(c.attachment_names@[i])) == match (chat.attachment_names@[i], c.attachment_names@[i]) {
        (Some(x), Some(y)) => x@ == y@,
        (None, None) => true,
        _ => false,
    } by {}
}

} // verus!
