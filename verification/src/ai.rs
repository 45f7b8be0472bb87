//! The settings of a Codex request, and the checks around the answers that
//! come back.
use vstd::prelude::*;
use std::path::PathBuf;
use std::sync::atomic::AtomicBool;
use std::sync::Arc;
use crate::chars::{chars_of, push_chars, same_text};
use crate::format::{decimal, push_decimal};

verus! {

/// `std::path::PathBuf`, an owned file-system path.
#[verifier::external_type_specification]
#[verifier::external_body]
pub struct ExPathBuf(PathBuf);

/// Where and how Codex is run for one request.
pub struct Config {
    /// The Codex executable.
    pub exe: PathBuf,
    /// The working directory of the Codex process.
    pub cwd: PathBuf,
    /// The model asked for.
    pub model: String,
    /// The reasoning effort asked for.
    pub effort: String,
    /// The number of example sentences generated per word.
    pub examples: usize,
    /// Set to cancel the running request.
    pub cancel: Arc<AtomicBool>,
}

impl Config {
    /// A configuration with a fresh cancellation flag.
    pub fn new(exe: PathBuf, cwd: PathBuf, model: String, effort: String, examples: usize) -> (r:
        Config)
        ensures
            r.exe == exe,
            r.cwd == cwd,
            r.model == model,
            r.effort == effort,
            r.examples == examples,
    {
        Config { exe, cwd, model, effort, examples, cancel: Arc::new(AtomicBool::new(false)) }
    }

    /// A drafted word must come with exactly the configured number of
    /// examples.
    pub fn check_draft_examples(&self, generated: usize) -> (r: Result<(), String>)
        ensures
            r is Ok <==> generated == self.examples,
            r matches Err(m) ==> m@ == draft_count_message(),
    {
        if generated != self.examples {
            return Err(String::from_str("生成された例文数が指定数と異なります。再度生成してください。"));
        }
        Ok(())
    }

    /// Additional examples must number exactly the configured count.
    pub fn check_more_examples(&self, generated: usize) -> (r: Result<(), String>)
        ensures
            r is Ok <==> generated == self.examples,
            r matches Err(m) ==> m@ == more_count_message(),
    {
        if generated != self.examples {
            return Err(String::from_str("例文数が指定と異なります。"));
        }
        Ok(())
    }
}

pub open spec fn draft_count_message() -> Seq<char> {
    "生成された例文数が指定数と異なります。再度生成してください。"@
}

pub open spec fn more_count_message() -> Seq<char> {
    "例文数が指定と異なります。"@
}

pub open spec fn changed_source_message() -> Seq<char> {
    "日本語原文が変わったため登録しませんでした。"@
}

/// An English example written for a Japanese sentence is registered only
/// when it kept that Japanese sentence exactly.
pub fn check_kept_source(source: &str, returned: &str) -> (r: Result<(), String>)
    ensures
        r is Ok <==> returned@ == source@,
        r matches Err(m) ==> m@ == changed_source_message(),
{
    if !same_text(returned, source) {
        return Err(String::from_str("日本語原文が変わったため登録しませんでした。"));
    }
    Ok(())
}

/// At most this many characters of a learner's answer are sent.
pub const MAX_ANSWER_CHARS: usize = 3000;

/// The learner's answer as sent: its first 3000 characters.
pub fn clip_answer(answer: &str) -> (r: String)
    ensures
        r@ == if answer@.len() <= MAX_ANSWER_CHARS {
            answer@
        } else {
            answer@.take(MAX_ANSWER_CHARS as int)
        },
{
    let cs = chars_of(answer);
    let n = if cs.len() <= MAX_ANSWER_CHARS {
        cs.len()
    } else {
        MAX_ANSWER_CHARS
    };
    let mut out = String::new();
    push_chars(&mut out, cs.as_slice(), 0, n);
    proof {
        if cs@.len() <= MAX_ANSWER_CHARS {
            assert(cs@.subrange(0, n as int) == answer@);
        }
    }
    out
}

/// The official word list holds between 2700 and 3000 words.
pub open spec fn word_count_message(n: nat) -> Seq<char> {
    "NGSLの取得件数が想定外です（"@ + decimal(n) + "語）。公式ファイルを確認してください。"@
}

/// A downloaded word list is accepted only with 2700 to 3000 words.
pub fn check_word_count(n: usize) -> (r: Result<(), String>)
    ensures
        r is Ok <==> 2700 <= n <= 3000,
        r matches Err(m) ==> m@ == word_count_message(n as nat),
{
    if n < 2700 || n > 3000 {
        let mut m = String::from_str("NGSLの取得件数が想定外です（");
        push_decimal(&mut m, n as u64);
        m.append("語）。公式ファイルを確認してください。");
        return Err(m);
    }
    Ok(())
}

} // verus!
