//! A verified core for an encrypted-notes tool: GPG key hygiene, archive layers, TOTP
//! codes, the key ledger, Gist request planning and the command-line decisions.
use vstd::prelude::*;

pub mod args;
pub mod catalog;
pub mod cli;
pub mod color;
pub mod commands;
pub mod dashboard;
pub mod encrypt;
pub mod gist;
pub mod json;
pub mod ledger;
pub mod setup;
pub mod text;
pub mod totp;
pub mod web;

use crate::text::{
    after_last, after_last_vec, chars_eq, chars_of, concat, has_prefix, owned, str_starts_with,
    string_of, trim_chars, trim_end_char, trim_end_char_vec, trim_spec, trim_str,
};

verus! {

/// The GitHub Gist REST endpoint.
pub const GIST_BASE_API: &'static str = "https://api.github.com/gists";

/// The settings kept in the unified configuration file.
pub struct AppUnifiedConfig {
    pub note_dir: Option<String>,
    pub key_id: Option<String>,
    pub gist_id: Option<String>,
    pub token_path: Option<String>,
    pub web_port: Option<u16>,
    pub web_state: Option<String>,
    pub last_updated: Option<String>,
    pub cached_commit_hash: Option<String>,
    pub cached_remote_files: Option<Vec<String>>,
}

impl Default for AppUnifiedConfig {
    /// A configuration with nothing set.
    fn default() -> (c: Self)
        ensures
            c.note_dir is None,
            c.key_id is None,
            c.gist_id is None,
            c.token_path is None,
            c.web_port is None,
            c.web_state is None,
            c.last_updated is None,
            c.cached_commit_hash is None,
            c.cached_remote_files is None,
    {
        AppUnifiedConfig {
            note_dir: None,
            key_id: None,
            gist_id: None,
            token_path: None,
            web_port: None,
            web_state: None,
            last_updated: None,
            cached_commit_hash: None,
            cached_remote_files: None,
        }
    }
}

/// `p` appended to `base` as `PathBuf::join` does on Unix: an absolute `p` replaces `base`,
/// and a separator is put between them unless `base` is empty or already ends with one.
pub open spec fn path_join_spec(base: Seq<char>, p: Seq<char>) -> Seq<char> {
    if has_prefix(p, "/"@) {
        p
    } else if base.len() > 0 && base.last() != '/' {
        base + "/"@ + p
    } else {
        base + p
    }
}

/// Joins a path component to a base path, as `PathBuf::join` does on Unix.
pub fn path_join(base: &str, p: &str) -> (r: String)
    ensures
        r@ == path_join_spec(base@, p@),
{
    if str_starts_with(p, "/") {
        owned(p)
    } else {
        let b = chars_of(base);
        if b.len() > 0 && b[b.len() - 1] != '/' {
            let with_sep = concat(base, "/");
            concat(with_sep.as_str(), p)
        } else {
            concat(base, p)
        }
    }
}

/// `path` with a leading `~` (alone, or followed by `/`) standing for `home`.
pub open spec fn expand_tilde_spec(path: Seq<char>, home: Seq<char>) -> Seq<char> {
    if path == "~"@ {
        home
    } else if has_prefix(path, "~/"@) {
        path_join_spec(home, path.skip(2))
    } else {
        path
    }
}

/// The last segment of a Gist ID or URL: trimmed, trailing `/` removed, the part after
/// the last `/`, trimmed again.
pub open spec fn clean_id_spec(raw: Seq<char>) -> Seq<char> {
    trim_spec(after_last(trim_end_char(trim_spec(raw), '/'), '/'))
}

/// The application-wide settings and where they live.
pub struct GameConfig;

impl GameConfig {
    /// Expands a leading tilde (`~` or `~/...`) to the home directory `home`.
    pub fn expand_tilde(path_str: &str, home: &str) -> (r: String)
        ensures
            r@ == expand_tilde_spec(path_str@, home@),
    {
        let v = chars_of(path_str);
        let tilde = chars_of("~");
        if chars_eq(&v, &tilde) {
            owned(home)
        } else if str_starts_with(path_str, "~/") {
            proof {
                reveal_strlit("~/");
            }
            let rest = crate::text::string_of_range(&v, 2, v.len());
            assert(rest@ =~= path_str@.skip(2));
            path_join(home, rest.as_str())
        } else {
            owned(path_str)
        }
    }

    /// Extracts the clean ID from a Gist ID or URL.
    pub fn extract_clean_id(raw_input: &str) -> (r: String)
        ensures
            r@ == clean_id_spec(raw_input@),
    {
        let t = trim_chars(&chars_of(raw_input));
        let u = trim_end_char_vec(&t, '/');
        let last = after_last_vec(&u, '/');
        string_of(&trim_chars(&last))
    }

    /// The API URL of the Gist with the given ID.
    pub fn get_gist_url(gist_id: &str) -> (r: String)
        ensures
            r@ == GIST_BASE_API@ + "/"@ + gist_id@,
    {
        let base = concat(GIST_BASE_API, "/");
        concat(base.as_str(), gist_id)
    }

    /// The unified configuration file inside the application directory `app_dir`.
    pub fn get_unified_config_path(app_dir: &str) -> (r: String)
        ensures
            r@ == path_join_spec(app_dir@, "config.json"@),
    {
        path_join(app_dir, "config.json")
    }

    /// A configured GPG key ID read from one source: `None` when the trimmed text is empty
    /// (the next source is tried), else the trimmed ID once it passes the SSH-key check.
    pub fn gpg_key_from(raw: &str) -> (r: Option<Result<String, String>>)
        ensures
            trim_spec(raw@).len() == 0 <==> r is None,
            r matches Some(Ok(k)) ==> k@ == trim_spec(raw@)
                && !crate::encrypt::is_ssh_key_text(trim_spec(raw@)),
            r matches Some(Err(e)) ==> e@ == crate::encrypt::ssh_violation_message()
                && crate::encrypt::is_ssh_key_text(trim_spec(raw@)),
    {
        let t = trim_str(raw);
        if t.as_str().is_empty() {
            return None;
        }
        match crate::encrypt::validate_gpg_key_not_ssh(t.as_str()) {
            Ok(()) => Some(Ok(t)),
            Err(e) => Some(Err(e)),
        }
    }

    /// A configured Gist ID read from one source: `None` when the trimmed text is empty,
    /// else the clean ID of the trimmed text.
    pub fn gist_id_from(raw: &str) -> (r: Option<String>)
        ensures
            trim_spec(raw@).len() == 0 <==> r is None,
            r matches Some(id) ==> id@ == clean_id_spec(trim_spec(raw@)),
    {
        let t = trim_str(raw);
        if t.as_str().is_empty() {
            None
        } else {
            Some(Self::extract_clean_id(t.as_str()))
        }
    }

    /// A configured note directory read from one source: `None` when the trimmed text is
    /// empty, else the trimmed path with its tilde expanded.
    pub fn note_dir_from(raw: &str, home: &str) -> (r: Option<String>)
        ensures
            trim_spec(raw@).len() == 0 <==> r is None,
            r matches Some(d) ==> d@ == expand_tilde_spec(trim_spec(raw@), home@),
    {
        let t = trim_str(raw);
        if t.as_str().is_empty() {
            None
        } else {
            Some(Self::expand_tilde(t.as_str(), home))
        }
    }

    /// The application directory under the home directory `home`:
    /// `home/.local/share/cyber-note`.
    pub fn get_app_config_dir(home: &str) -> (r: String)
        ensures
            r@ == app_config_dir_spec(home@),
    {
        let a = path_join(home, ".local");
        let b = path_join(a.as_str(), "share");
        path_join(b.as_str(), "cyber-note")
    }

    /// The directory of private credentials inside the application directory.
    pub fn get_secrets_dir(app_config_dir: &str) -> (r: String)
        ensures
            r@ == path_join_spec(app_config_dir@, "secrets"@),
    {
        path_join(app_config_dir, "secrets")
    }

    /// The note directory used when none is configured: `notes` in the application
    /// directory under `home`.
    pub fn default_note_dir(home: &str) -> (r: String)
        ensures
            r@ == path_join_spec(app_config_dir_spec(home@), "notes"@),
    {
        let app = Self::get_app_config_dir(home);
        path_join(app.as_str(), "notes")
    }

    /// The position of the first source that holds text other than white space.
    pub fn first_configured_source(sources: &Vec<Option<String>>) -> (r: Option<usize>)
        ensures
            match r {
                Some(i) => first_configured(sources@) == Some(i as int) && i < sources@.len()
                    && is_configured_text(sources@[i as int]),
                None => first_configured(sources@) is None,
            },
    {
        let mut i: usize = 0;
        while i < sources.len()
            invariant
                i <= sources@.len(),
                forall|j: int| 0 <= j < i ==> !is_configured_text(#[trigger] sources@[j]),
            decreases sources.len() - i,
        {
            match &sources[i] {
                Some(s) => {
                    let t = trim_str(s.as_str());
                    if !t.as_str().is_empty() {
                        proof {
                            lemma_first_configured(sources@, i as int);
                        }
                        return Some(i);
                    }
                },
                None => {},
            }
            i = i + 1;
        }
        proof {
            lemma_first_configured(sources@, sources@.len() as int);
        }
        None
    }

    /// The GPG key to use, from the configuration sources in order of precedence (the
    /// environment, the application directory, the note directory, the unified file, the
    /// legacy directory): the first that is not blank, trimmed, once it passes the SSH-key
    /// check; an error when it fails that check or when no source is configured.
    pub fn get_gpg_user_id(sources: &Vec<Option<String>>) -> (r: Result<String, String>)
        ensures
            match first_configured(sources@) {
                Some(i) => {
                    let t = trim_spec(sources@[i]->Some_0@);
                    if crate::encrypt::is_ssh_key_text(t) {
                        (r matches Err(e) && e@ == crate::encrypt::ssh_violation_message())
                    } else {
                        (r matches Ok(k) && k@ == t)
                    }
                },
                None => (r matches Err(e) && e@ == no_key_message()),
            },
            r matches Ok(k) ==> !crate::encrypt::is_ssh_key_text(k@),
    {
        match Self::first_configured_source(sources) {
            Some(i) => {
                let raw = match &sources[i] {
                    Some(s) => s.as_str(),
                    None => "",
                };
                match Self::gpg_key_from(raw) {
                    Some(res) => res,
                    None => Err(owned("未配置 GPG 金鑰，請執行 'a --init' 進行配置。")),
                }
            },
            None => Err(owned("未配置 GPG 金鑰，請執行 'a --init' 進行配置。")),
        }
    }

    /// The Gist ID to use, from the configuration sources in order of precedence (the
    /// environment, the application directory, the note directory, the unified file, the
    /// legacy directory, the note directory's old URL file): the clean ID of the first
    /// that is not blank; an error when none is configured.
    pub fn get_gist_id(sources: &Vec<Option<String>>) -> (r: Result<String, String>)
        ensures
            match first_configured(sources@) {
                Some(i) => (r matches Ok(id) && id@ == clean_id_spec(trim_spec(sources@[i]->Some_0@))),
                None => (r matches Err(e) && e@ == no_gist_message()),
            },
    {
        match Self::first_configured_source(sources) {
            Some(i) => {
                let raw = match &sources[i] {
                    Some(s) => s.as_str(),
                    None => "",
                };
                match Self::gist_id_from(raw) {
                    Some(id) => Ok(id),
                    None => Err(owned("未配置雲端 Gist ID，請執行 'a --init' 進行配置。")),
                }
            },
            None => Err(owned("未配置雲端 Gist ID，請執行 'a --init' 進行配置。")),
        }
    }

    /// The note directory: the one named by the environment (tilde expanded, as given),
    /// else the first configured source (the unified file, the application directory,
    /// the legacy directory), trimmed and tilde expanded, else the default under `home`.
    pub fn get_note_dir(env_dir: Option<&str>, sources: &Vec<Option<String>>, home: &str) -> (r: String)
        ensures
            r@ == match env_dir {
                Some(d) => expand_tilde_spec(d@, home@),
                None => match first_configured(sources@) {
                    Some(i) => expand_tilde_spec(trim_spec(sources@[i]->Some_0@), home@),
                    None => path_join_spec(app_config_dir_spec(home@), "notes"@),
                },
            },
    {
        match env_dir {
            Some(d) => Self::expand_tilde(d, home),
            None => match Self::first_configured_source(sources) {
                Some(i) => {
                    let raw = match &sources[i] {
                        Some(s) => s.as_str(),
                        None => "",
                    };
                    match Self::note_dir_from(raw, home) {
                        Some(d) => d,
                        None => Self::default_note_dir(home),
                    }
                },
                None => Self::default_note_dir(home),
            },
        }
    }

    /// The first source that could be read, trimmed (an empty file counts).
    pub fn first_read_trimmed(sources: &Vec<Option<String>>) -> (r: Option<String>)
        ensures
            match first_read(sources@) {
                Some(i) => (r matches Some(t) && t@ == trim_spec(sources@[i]->Some_0@)),
                None => r is None,
            },
    {
        let mut i: usize = 0;
        while i < sources.len()
            invariant
                i <= sources@.len(),
                forall|j: int| 0 <= j < i ==> #[trigger] sources@[j] is None,
            decreases sources.len() - i,
        {
            match &sources[i] {
                Some(s) => {
                    proof {
                        lemma_first_read(sources@, i as int);
                    }
                    return Some(trim_str(s.as_str()));
                },
                None => {},
            }
            i = i + 1;
        }
        proof {
            lemma_first_read(sources@, sources@.len() as int);
        }
        None
    }

    /// The unified configuration rebuilt from the single-value files of older versions,
    /// each field from the first of its files that could be read (the application
    /// directory, then the legacy directories), trimmed.
    pub fn migrated_config(
        note_dirs: &Vec<Option<String>>,
        key_ids: &Vec<Option<String>>,
        gist_ids: &Vec<Option<String>>,
    ) -> (c: AppUnifiedConfig)
        ensures
            match first_read(note_dirs@) {
                Some(i) => (c.note_dir matches Some(t) && t@ == trim_spec(note_dirs@[i]->Some_0@)),
                None => c.note_dir is None,
            },
            match first_read(key_ids@) {
                Some(i) => (c.key_id matches Some(t) && t@ == trim_spec(key_ids@[i]->Some_0@)),
                None => c.key_id is None,
            },
            match first_read(gist_ids@) {
                Some(i) => (c.gist_id matches Some(t) && t@ == trim_spec(gist_ids@[i]->Some_0@)),
                None => c.gist_id is None,
            },
            c.token_path is None,
            c.web_port is None,
            c.web_state is None,
            c.last_updated is None,
            c.cached_commit_hash is None,
            c.cached_remote_files is None,
    {
        AppUnifiedConfig {
            note_dir: Self::first_read_trimmed(note_dirs),
            key_id: Self::first_read_trimmed(key_ids),
            gist_id: Self::first_read_trimmed(gist_ids),
            token_path: None,
            web_port: None,
            web_state: None,
            last_updated: None,
            cached_commit_hash: None,
            cached_remote_files: None,
        }
    }
}

/// `home/.local/share/cyber-note`.
pub open spec fn app_config_dir_spec(home: Seq<char>) -> Seq<char> {
    path_join_spec(path_join_spec(path_join_spec(home, ".local"@), "share"@), "cyber-note"@)
}

/// A source holds configured text: it could be read and is not blank.
pub open spec fn is_configured_text(src: Option<String>) -> bool {
    src matches Some(s) && trim_spec(s@).len() > 0
}

/// The position of the first configured source.
pub open spec fn first_configured(srcs: Seq<Option<String>>) -> Option<int>
    decreases srcs.len(),
{
    if srcs.len() == 0 {
        None
    } else if is_configured_text(srcs[0]) {
        Some(0)
    } else {
        match first_configured(srcs.drop_first()) {
            Some(i) => Some(i + 1),
            None => None,
        }
    }
}

/// The position of the first source that could be read.
pub open spec fn first_read(srcs: Seq<Option<String>>) -> Option<int>
    decreases srcs.len(),
{
    if srcs.len() == 0 {
        None
    } else if srcs[0] is Some {
        Some(0)
    } else {
        match first_read(srcs.drop_first()) {
            Some(i) => Some(i + 1),
            None => None,
        }
    }
}

proof fn lemma_first_configured(srcs: Seq<Option<String>>, i: int)
    requires
        0 <= i <= srcs.len(),
        forall|j: int| 0 <= j < i ==> !is_configured_text(#[trigger] srcs[j]),
    ensures
        i < srcs.len() && is_configured_text(srcs[i]) ==> first_configured(srcs) == Some(i),
        i == srcs.len() ==> first_configured(srcs) is None,
    decreases i,
{
    if i > 0 {
        assert(!is_configured_text(srcs[0]));
        lemma_first_configured(srcs.drop_first(), i - 1);
    }
}

proof fn lemma_first_read(srcs: Seq<Option<String>>, i: int)
    requires
        0 <= i <= srcs.len(),
        forall|j: int| 0 <= j < i ==> #[trigger] srcs[j] is None,
    ensures
        i < srcs.len() && srcs[i] is Some ==> first_read(srcs) == Some(i),
        i == srcs.len() ==> first_read(srcs) is None,
    decreases i,
{
    if i > 0 {
        assert(srcs[0] is None);
        lemma_first_read(srcs.drop_first(), i - 1);
    }
}

/// The error when no GPG key is configured.
pub open spec fn no_key_message() -> Seq<char> {
    "未配置 GPG 金鑰，請執行 'a --init' 進行配置。"@
}

/// The error when no Gist is configured.
pub open spec fn no_gist_message() -> Seq<char> {
    "未配置雲端 Gist ID，請執行 'a --init' 進行配置。"@
}

/// A clean ID holds no `/` and no surrounding White_Space.
pub proof fn lemma_clean_id_shape(raw: Seq<char>)
    ensures
        crate::text::free_of(clean_id_spec(raw), '/'),
        trim_spec(clean_id_spec(raw)) == clean_id_spec(raw),
{
    let a = after_last(trim_end_char(trim_spec(raw), '/'), '/');
    crate::text::lemma_after_last(trim_end_char(trim_spec(raw), '/'), '/');
    crate::text::lemma_trim_is_part(a);
    let (i, j) = choose|i: int, j: int| 0 <= i <= j <= a.len() && trim_spec(a) == #[trigger] a.subrange(i, j);
    crate::text::lemma_free_of_part(a, '/', i, j);
    crate::text::lemma_trim_idempotent(a);
}

/// Extracting the clean ID is idempotent: the clean ID of a clean ID is itself.
pub proof fn lemma_clean_id_idempotent(raw: Seq<char>)
    ensures
        clean_id_spec(clean_id_spec(raw)) == clean_id_spec(raw),
{
    let c = clean_id_spec(raw);
    lemma_clean_id_shape(raw);
    if c.len() > 0 {
        assert(c[c.len() - 1] != '/');
    }
    assert(trim_end_char(c, '/') == c);
    crate::text::lemma_after_last(c, '/');
}

/// The clean ID is what `extract_clean_id` reads back from the API URL that
/// `get_gist_url` makes of it: for an ID that is not empty, holds no `/` and no
/// surrounding White_Space.
pub proof fn lemma_clean_id_of_gist_url(id: Seq<char>)
    requires
        id.len() > 0,
        crate::text::free_of(id, '/'),
        trim_spec(id) == id,
    ensures
        clean_id_spec(GIST_BASE_API@ + "/"@ + id) == id,
{
    reveal_strlit("https://api.github.com/gists");
    reveal_strlit("/");
    let base = GIST_BASE_API@;
    let u = base + "/"@ + id;
    assert(u =~= base.push('/') + id);
    crate::text::lemma_trim_end_shape(crate::text::trim_start_spec(id));
    assert(!crate::text::is_ws(id.last()));
    assert(u[0] == 'h');
    assert(u.last() == id.last());
    crate::text::lemma_trim_identity(u);
    assert(u.last() != '/');
    assert(trim_end_char(u, '/') == u);
    crate::text::lemma_after_last_suffix(base, '/', id);
}

/// Every configured Gist ID survives the round trip through its API URL.
pub proof fn lemma_gist_url_round_trip(raw: Seq<char>)
    requires
        clean_id_spec(raw).len() > 0,
    ensures
        clean_id_spec(GIST_BASE_API@ + "/"@ + clean_id_spec(raw)) == clean_id_spec(raw),
{
    lemma_clean_id_shape(raw);
    lemma_clean_id_of_gist_url(clean_id_spec(raw));
}

} // verus!
