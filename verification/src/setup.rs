use vstd::prelude::*;

use crate::text::{owned, trim_spec, trim_str};

verus! {

/// The answer to a prompt: the trimmed input, or the default (nothing when there is
/// none) when the input is blank.
pub fn prompt_answer(input: &str, default: Option<&str>) -> (r: String)
    ensures
        r@ == if trim_spec(input@).len() > 0 {
            trim_spec(input@)
        } else {
            match default {
                Some(d) => d@,
                None => Seq::<char>::empty(),
            }
        },
{
    let t = trim_str(input);
    if t.as_str().is_empty() {
        match default {
            Some(d) => owned(d),
            None => String::new(),
        }
    } else {
        t
    }
}

/// The default offered for a setting: the current value, unless it is empty.
pub fn current_as_default(current: &str) -> (r: Option<&str>)
    ensures
        match r {
            Some(d) => current@.len() > 0 && d@ == current@,
            None => current@.len() == 0,
        },
{
    if current.is_empty() {
        None
    } else {
        Some(current)
    }
}

/// The answer that keeps the stored token.
pub open spec fn keep_token_answer() -> Seq<char> {
    "保留現有加密憑證"@
}

/// The default offered when asking for the token: keeping the stored one, if any.
pub fn token_prompt_default(has_token: bool) -> (r: Option<&'static str>)
    ensures
        match r {
            Some(d) => has_token && d@ == keep_token_answer(),
            None => !has_token,
        },
{
    if has_token {
        Some("保留現有加密憑證")
    } else {
        None
    }
}

/// What the setup does with the token answer.
pub enum TokenStep {
    /// Encrypt and store this token.
    Store(String),
    /// Keep the stored token.
    Keep,
    /// There is no token to keep and none was given.
    Skip,
}

/// Decides what to do with the token answer: store a new token unless the answer is empty
/// or keeps the stored one; else keep the stored token when there is one.
pub fn token_step(answer: &str, has_token: bool) -> (r: TokenStep)
    ensures
        match r {
            TokenStep::Store(t) => answer@ != keep_token_answer() && answer@.len() > 0 && t@ == answer@,
            TokenStep::Keep => !(answer@ != keep_token_answer() && answer@.len() > 0) && has_token,
            TokenStep::Skip => !(answer@ != keep_token_answer() && answer@.len() > 0) && !has_token,
        },
{
    if !crate::text::str_eq(answer, "保留現有加密憑證") && !answer.is_empty() {
        TokenStep::Store(owned(answer))
    } else if has_token {
        TokenStep::Keep
    } else {
        TokenStep::Skip
    }
}

/// What the setup does with a key answer.
pub enum KeyStep {
    /// No key given: move on.
    Done,
    /// A GPG key ID that passes the check: save it.
    Save(String),
    /// An SSH key: show this error and ask again.
    Retry(String),
}

/// Decides what to do with a key answer.
pub fn key_step(answer: &str) -> (r: KeyStep)
    ensures
        match r {
            KeyStep::Done => answer@.len() == 0,
            KeyStep::Save(k) => answer@.len() > 0 && !crate::encrypt::is_ssh_key_text(answer@) && k@
                == answer@,
            KeyStep::Retry(e) => answer@.len() > 0 && crate::encrypt::is_ssh_key_text(answer@) && e@
                == crate::encrypt::ssh_violation_message(),
        },
{
    if answer.is_empty() {
        return KeyStep::Done;
    }
    match crate::encrypt::validate_gpg_key_not_ssh(answer) {
        Ok(()) => KeyStep::Save(owned(answer)),
        Err(e) => KeyStep::Retry(e),
    }
}

/// Records the outcome of the setup in the unified configuration: the note directory,
/// the key and the Gist when they are configured, the token file and the time.
pub fn finish_setup(
    cfg: &mut crate::AppUnifiedConfig,
    note_dir: String,
    key: Result<String, String>,
    gist: Result<String, String>,
    token_path: String,
    now: String,
)
    ensures
        final(cfg).note_dir == Some(note_dir),
        final(cfg).key_id == match key {
            Ok(k) => Some(k),
            Err(_) => old(cfg).key_id,
        },
        final(cfg).gist_id == match gist {
            Ok(g) => Some(g),
            Err(_) => old(cfg).gist_id,
        },
        final(cfg).token_path == Some(token_path),
        final(cfg).last_updated == Some(now),
        final(cfg).web_port == old(cfg).web_port,
        final(cfg).web_state == old(cfg).web_state,
        final(cfg).cached_commit_hash == old(cfg).cached_commit_hash,
        final(cfg).cached_remote_files == old(cfg).cached_remote_files,
{
    cfg.note_dir = Some(note_dir);
    match key {
        Ok(k) => {
            cfg.key_id = Some(k);
        },
        Err(_) => {},
    }
    match gist {
        Ok(g) => {
            cfg.gist_id = Some(g);
        },
        Err(_) => {},
    }
    cfg.token_path = Some(token_path);
    cfg.last_updated = Some(now);
}

/// Which token file to read: the first that exists of the private directory's, the note
/// directory's and the legacy one (0, 1, 2), else the private directory's.
pub fn token_file_choice(secret_exists: bool, note_exists: bool, legacy_exists: bool) -> (i: usize)
    ensures
        i == if secret_exists {
            0usize
        } else if note_exists {
            1usize
        } else if legacy_exists {
            2usize
        } else {
            0usize
        },
{
    if secret_exists {
        0
    } else if note_exists {
        1
    } else if legacy_exists {
        2
    } else {
        0
    }
}

/// The token in a decrypted token file: its trimmed text, an error when that is empty.
pub fn token_from_decrypted(text: &str) -> (r: Result<String, String>)
    ensures
        match r {
            Ok(t) => trim_spec(text@).len() > 0 && t@ == trim_spec(text@),
            Err(e) => trim_spec(text@).len() == 0 && e@ == "解密後的 Token 內容為空"@,
        },
{
    let t = trim_str(text);
    if t.as_str().is_empty() {
        Err(owned("解密後的 Token 內容為空"))
    } else {
        Ok(t)
    }
}

} // verus!
