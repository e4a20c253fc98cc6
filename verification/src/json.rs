use vstd::prelude::*;

use crate::gist::{GistCreate, GistFileChange, GistPatch};
use crate::text::{join_spec, owned, trim_spec, trim_str};

verus! {

/// The lower-case hexadecimal digit of `n`, for `n` from 0 to 15.
pub open spec fn hex_digit(n: int) -> char {
    if n < 10 {
        (n + 48) as char
    } else {
        (n + 87) as char
    }
}

/// How one character is written inside a JSON string: `"` and `\` with a backslash,
/// backspace, form feed, line feed, carriage return and tab by their short escapes, the
/// other control characters below U+0020 as `\u00` and two lower-case hex digits, and
/// every other character as itself.
pub open spec fn json_escape_char(c: char) -> Seq<char> {
    if c == '"' {
        seq!['\\', '"']
    } else if c == '\\' {
        seq!['\\', '\\']
    } else if c == '\u{8}' {
        seq!['\\', 'b']
    } else if c == '\u{c}' {
        seq!['\\', 'f']
    } else if c == '\n' {
        seq!['\\', 'n']
    } else if c == '\r' {
        seq!['\\', 'r']
    } else if c == '\t' {
        seq!['\\', 't']
    } else if (c as int) < 0x20 {
        seq!['\\', 'u', '0', '0', hex_digit((c as int) / 16), hex_digit((c as int) % 16)]
    } else {
        seq![c]
    }
}

/// The characters of `s`, each escaped for a JSON string.
pub open spec fn json_escaped(s: Seq<char>) -> Seq<char>
    decreases s.len(),
{
    if s.len() == 0 {
        Seq::empty()
    } else {
        json_escaped(s.drop_last()) + json_escape_char(s.last())
    }
}

/// `s` as a JSON string: escaped, between double quotes.
pub open spec fn json_string_spec(s: Seq<char>) -> Seq<char> {
    seq!['"'] + json_escaped(s) + seq!['"']
}

/// Writes `s` as a JSON string with `serde_json::to_string`.
/// Claims: the text is `s` escaped as `json_escape_char` says, between double quotes.
/// This is serde_json's `format_escaped_str` with its `ESCAPE` table (ser.rs): `"`, `\`
/// and the bytes below 0x20 are escaped, `\b \t \n \f \r` by letter, the rest as `\u00`
/// with digits from `0123456789abcdef`; no other character is changed. Serialising a
/// `str` cannot fail; the error arm only satisfies the type.
#[verifier::external_body]
fn json_string(s: &str) -> (r: String)
    ensures
        r@ == json_string_spec(s@),
{
    match serde_json::to_string(s) {
        Ok(text) => text,
        Err(_) => String::new(),
    }
}

/// Appends `s` as a JSON string to `out`.
fn push_json_string(out: &mut String, s: &str)
    ensures
        final(out)@ == old(out)@ + json_string_spec(s@),
{
    let q = json_string(s);
    out.append(q.as_str());
}

/// The text of an optional string.
pub open spec fn opt_view(o: Option<String>) -> Option<Seq<char>> {
    match o {
        Some(s) => Some(s@),
        None => None,
    }
}

/// One member of a Gist body's `files` object: the file's name, then its new content
/// (`{"content": ...}`), or `null` to delete it.
pub open spec fn file_member_json(name: Seq<char>, content: Option<Seq<char>>) -> Seq<char> {
    json_string_spec(name) + ":"@ + match content {
        Some(c) => "{\"content\":"@ + json_string_spec(c) + "}"@,
        None => "null"@,
    }
}

/// The members of a `files` object for these changes, in order, separated by commas.
pub open spec fn file_changes_json(files: Seq<GistFileChange>) -> Seq<char>
    decreases files.len(),
{
    if files.len() == 0 {
        Seq::empty()
    } else if files.len() == 1 {
        file_member_json(files[0].name@, opt_view(files[0].content))
    } else {
        file_changes_json(files.drop_last()) + ","@ + file_member_json(
            files.last().name@,
            opt_view(files.last().content),
        )
    }
}

/// The JSON body of a Gist update: the description when there is one, then the files.
pub open spec fn patch_body_spec(p: GistPatch) -> Seq<char> {
    "{"@ + match p.description {
        Some(d) => "\"description\":"@ + json_string_spec(d@) + ","@,
        None => Seq::empty(),
    } + "\"files\":{"@ + file_changes_json(p.files@) + "}}"@
}

/// Appends the member for one file change.
fn push_file_member(out: &mut String, name: &str, content: Option<&str>)
    ensures
        final(out)@ == old(out)@ + file_member_json(
            name@,
            match content {
                Some(c) => Some(c@),
                None => None,
            },
        ),
{
    push_json_string(out, name);
    out.append(":");
    match content {
        Some(c) => {
            out.append("{\"content\":");
            push_json_string(out, c);
            out.append("}");
        },
        None => out.append("null"),
    }
}

/// The JSON text sent to update a Gist.
pub fn patch_body(p: &GistPatch) -> (r: String)
    ensures
        r@ == patch_body_spec(*p),
{
    let mut r = owned("{");
    match &p.description {
        Some(d) => {
            r.append("\"description\":");
            push_json_string(&mut r, d.as_str());
            r.append(",");
        },
        None => {},
    }
    r.append("\"files\":{");
    let ghost head = r@;
    let mut i: usize = 0;
    while i < p.files.len()
        invariant
            i <= p.files@.len(),
            r@ == head + file_changes_json(p.files@.take(i as int)),
        decreases p.files.len() - i,
    {
        let f = &p.files[i];
        let ghost before = r@;
        if i > 0 {
            r.append(",");
        }
        let content: Option<&str> = match &f.content {
            Some(c) => Some(c.as_str()),
            None => None,
        };
        push_file_member(&mut r, f.name.as_str(), content);
        proof {
            let t = p.files@.take(i + 1);
            assert(t.drop_last() =~= p.files@.take(i as int));
            assert(t.last() == p.files@[i as int]);
            if i == 0 {
                assert(p.files@.take(0) =~= Seq::<GistFileChange>::empty());
                assert(r@ =~= head + file_changes_json(t));
            } else {
                assert(r@ =~= head + file_changes_json(t));
            }
        }
        i = i + 1;
    }
    assert(p.files@.take(i as int) =~= p.files@);
    r.append("}}");
    r
}

/// The members of a `files` object that creates these files, in order.
pub open spec fn new_files_json(files: Seq<(String, String)>) -> Seq<char>
    decreases files.len(),
{
    if files.len() == 0 {
        Seq::empty()
    } else if files.len() == 1 {
        file_member_json(files[0].0@, Some(files[0].1@))
    } else {
        new_files_json(files.drop_last()) + ","@ + file_member_json(
            files.last().0@,
            Some(files.last().1@),
        )
    }
}

/// The JSON body that creates a Gist: its description, whether it is public, its files.
pub open spec fn create_body_spec(c: GistCreate) -> Seq<char> {
    "{\"description\":"@ + json_string_spec(c.description@) + ",\"public\":"@ + (if c.public {
        "true"@
    } else {
        "false"@
    }) + ",\"files\":{"@ + new_files_json(c.files@) + "}}"@
}

/// The JSON text sent to create a Gist.
pub fn create_body(c: &GistCreate) -> (r: String)
    ensures
        r@ == create_body_spec(*c),
{
    let mut r = owned("{\"description\":");
    push_json_string(&mut r, c.description.as_str());
    r.append(",\"public\":");
    if c.public {
        r.append("true");
    } else {
        r.append("false");
    }
    r.append(",\"files\":{");
    let ghost head = r@;
    let mut i: usize = 0;
    while i < c.files.len()
        invariant
            i <= c.files@.len(),
            r@ == head + new_files_json(c.files@.take(i as int)),
        decreases c.files.len() - i,
    {
        if i > 0 {
            r.append(",");
        }
        push_file_member(&mut r, c.files[i].0.as_str(), Some(c.files[i].1.as_str()));
        proof {
            let t = c.files@.take(i + 1);
            assert(t.drop_last() =~= c.files@.take(i as int));
            assert(t.last() == c.files@[i as int]);
            if i == 0 {
                assert(c.files@.take(0) =~= Seq::<(String, String)>::empty());
            }
            assert(r@ =~= head + new_files_json(t));
        }
        i = i + 1;
    }
    assert(c.files@.take(i as int) =~= c.files@);
    r.append("}}");
    r
}

/// The JSON text sent to rename the Gist file `old_name` to `new_name`.
pub fn rename_body(old_name: &str, new_name: &str) -> (r: String)
    ensures
        r@ == "{\"files\":{"@ + json_string_spec(old_name@) + ":{\"filename\":"@ + json_string_spec(
            new_name@,
        ) + "}}}"@,
{
    let mut r = owned("{\"files\":{");
    push_json_string(&mut r, old_name);
    r.append(":{\"filename\":");
    push_json_string(&mut r, new_name);
    r.append("}}}");
    r
}

/// The answer to a saved configuration update.
pub fn config_saved_json() -> (r: &'static str)
    ensures
        r@ == "{\"message\":\"配置已成功合併寫入 ~/.local/share/cyber-note/config.json 統一設定檔！\",\"success\":true}"@,
{
    "{\"message\":\"配置已成功合併寫入 ~/.local/share/cyber-note/config.json 統一設定檔！\",\"success\":true}"
}

/// The answer to a change of the web engine's state: the message that confirms it and
/// the state.
pub fn web_state_json(state: &str) -> (r: String)
    ensures
        r@ == "{\"message\":"@ + json_string_spec(
            if state@ == "active"@ {
                "Web 網頁端管理引擎已啟動 (ACTIVE)"@
            } else {
                "Web 網頁端管理引擎已切換為待機模式 (STANDBY)"@
            },
        ) + ",\"state\":"@ + json_string_spec(state@) + "}"@,
{
    let mut r = owned("{\"message\":");
    push_json_string(&mut r, crate::web::web_state_message(state));
    r.append(",\"state\":");
    push_json_string(&mut r, state);
    r.append("}");
    r
}

/// What the status endpoint reports, as read from the configuration and the disk.
pub struct StatusFacts {
    pub note_dir: String,
    pub config_dir: String,
    pub unified_config_file: String,
    pub secrets_dir: String,
    pub token_path: String,
    pub key_id: String,
    pub gist_id: String,
    pub has_token: bool,
    pub web_state: String,
}

/// The status endpoint's JSON body, its members in key order; the web state is trimmed.
pub open spec fn status_json_spec(f: StatusFacts) -> Seq<char> {
    "{\"binaryPath\":\"a\",\"configDir\":"@ + json_string_spec(f.config_dir@)
        + ",\"defaultDirStandard\":\"~/.local/share/cyber-note/notes\",\"engine\":\"Rust-Native-Zero-Dependency\",\"gistId\":"@
        + json_string_spec(f.gist_id@) + ",\"hasToken\":"@ + (if f.has_token {
        "true"@
    } else {
        "false"@
    }) + ",\"keyId\":"@ + json_string_spec(f.key_id@) + ",\"noteDir\":"@ + json_string_spec(
        f.note_dir@,
    ) + ",\"notes\":[],\"rustAvailable\":true,\"secretsDir\":"@ + json_string_spec(f.secrets_dir@)
        + ",\"tokenPath\":"@ + json_string_spec(f.token_path@) + ",\"unifiedConfigFile\":"@
        + json_string_spec(f.unified_config_file@) + ",\"version\":\"0.0.4\",\"webState\":"@
        + json_string_spec(trim_spec(f.web_state@)) + "}"@
}

/// The status endpoint's JSON body.
pub fn status_json(f: &StatusFacts) -> (r: String)
    ensures
        r@ == status_json_spec(*f),
{
    let mut r = owned("{\"binaryPath\":\"a\",\"configDir\":");
    push_json_string(&mut r, f.config_dir.as_str());
    r.append(
        ",\"defaultDirStandard\":\"~/.local/share/cyber-note/notes\",\"engine\":\"Rust-Native-Zero-Dependency\",\"gistId\":",
    );
    push_json_string(&mut r, f.gist_id.as_str());
    r.append(",\"hasToken\":");
    if f.has_token {
        r.append("true");
    } else {
        r.append("false");
    }
    r.append(",\"keyId\":");
    push_json_string(&mut r, f.key_id.as_str());
    r.append(",\"noteDir\":");
    push_json_string(&mut r, f.note_dir.as_str());
    r.append(",\"notes\":[],\"rustAvailable\":true,\"secretsDir\":");
    push_json_string(&mut r, f.secrets_dir.as_str());
    r.append(",\"tokenPath\":");
    push_json_string(&mut r, f.token_path.as_str());
    r.append(",\"unifiedConfigFile\":");
    push_json_string(&mut r, f.unified_config_file.as_str());
    r.append(",\"version\":\"0.0.4\",\"webState\":");
    let state = trim_str(f.web_state.as_str());
    push_json_string(&mut r, state.as_str());
    r.append("}");
    r
}

/// Escaping writes no raw control character and no unescaped double quote: every
/// character of the escaped text is at least U+0020, and every `"` in it directly follows
/// a backslash. (Characters are Unicode scalar values, so none is below zero.)
pub proof fn lemma_json_escaped_is_safe(s: Seq<char>)
    requires
        forall|i: int| 0 <= i < s.len() ==> (#[trigger] s[i]) as int >= 0,
    ensures
        forall|k: int| 0 <= k < json_escaped(s).len() ==> (#[trigger] json_escaped(s)[k]) as int >= 0x20,
        forall|k: int|
            0 <= k < json_escaped(s).len() && #[trigger] json_escaped(s)[k] == '"' ==> k > 0
                && json_escaped(s)[k - 1] == '\\',
    decreases s.len(),
{
    if s.len() > 0 {
        let prev = json_escaped(s.drop_last());
        assert(s[s.len() - 1] as int >= 0);
        assert forall|i: int| 0 <= i < s.drop_last().len() implies (#[trigger] s.drop_last()[i]) as int >= 0 by {
            assert(s.drop_last()[i] == s[i]);
        }
        lemma_json_escaped_is_safe(s.drop_last());
        let e = json_escape_char(s.last());
        let r = json_escaped(s);
        assert(r == prev + e);
        let c = s.last();
        assert forall|k: int| 0 <= k < e.len() implies (#[trigger] e[k]) as int >= 0x20 && (e[k] == '"'
            ==> k > 0 && e[k - 1] == '\\') by {
            if (c as int) < 0x20 && c != '\u{8}' && c != '\u{c}' && c != '\n' && c != '\r' && c != '\t' {
                assert(0 <= (c as int));
                assert(0 <= (c as int) / 16 < 2);
                assert(0 <= (c as int) % 16 < 16);
            }
        }
        assert forall|k: int| 0 <= k < r.len() implies (#[trigger] r[k]) as int >= 0x20 by {
            if k >= prev.len() {
                assert(r[k] == e[k - prev.len()]);
            } else {
                assert(r[k] == prev[k]);
            }
        }
        assert forall|k: int| 0 <= k < r.len() && #[trigger] r[k] == '"' implies k > 0 && r[k - 1] == '\\' by {
            if k >= prev.len() {
                assert(r[k] == e[k - prev.len()]);
                if k - prev.len() > 0 {
                    assert(r[k - 1] == e[k - 1 - prev.len()]);
                }
            } else {
                assert(r[k] == prev[k]);
                assert(r[k - 1] == prev[k - 1]);
            }
        }
    }
}

/// The members that create the given files: each name as a JSON string, a colon, and an
/// object whose `content` is the file's text.
pub open spec fn create_members(files: Seq<(String, String)>) -> Seq<Seq<char>> {
    Seq::new(
        files.len(),
        |i: int| json_string_spec(files[i].0@) + ":{\"content\":"@ + json_string_spec(files[i].1@) + "}"@,
    )
}

/// The members of a Gist update: each name as a JSON string, a colon, then an object whose
/// `content` is the new text, or `null` for a file to delete.
pub open spec fn patch_members(files: Seq<GistFileChange>) -> Seq<Seq<char>> {
    Seq::new(
        files.len(),
        |i: int|
            json_string_spec(files[i].name@) + ":"@ + match files[i].content {
                Some(c) => "{\"content\":"@ + json_string_spec(c@) + "}"@,
                None => "null"@,
            },
    )
}

proof fn lemma_new_files_joined(files: Seq<(String, String)>)
    ensures
        new_files_json(files) == join_spec(create_members(files), ","@),
    decreases files.len(),
{
    reveal_strlit(":");
    reveal_strlit("{\"content\":");
    reveal_strlit(":{\"content\":");
    assert(":"@ + "{\"content\":"@ =~= ":{\"content\":"@);
    if files.len() == 1 {
        assert(create_members(files)[0] =~= file_member_json(files[0].0@, Some(files[0].1@)));
    }
    if files.len() > 1 {
        lemma_new_files_joined(files.drop_last());
        assert(create_members(files.drop_last()) =~= create_members(files).drop_last());
        assert(create_members(files).last() =~= file_member_json(files.last().0@, Some(files.last().1@)));
    }
}

proof fn lemma_file_changes_joined(files: Seq<GistFileChange>)
    ensures
        file_changes_json(files) == join_spec(patch_members(files), ","@),
    decreases files.len(),
{
    if files.len() > 1 {
        lemma_file_changes_joined(files.drop_last());
        assert(patch_members(files.drop_last()) =~= patch_members(files).drop_last());
    }
}

/// The body that creates a Gist is a JSON object with the description, the public flag and
/// a `files` object whose members, one per file in order and separated by commas, map each
/// file's name to `{"content": ...}` with its text.
pub proof fn lemma_create_body_lists_every_file(c: GistCreate)
    ensures
        create_body_spec(c) == "{\"description\":"@ + json_string_spec(c.description@)
            + ",\"public\":"@ + (if c.public {
            "true"@
        } else {
            "false"@
        }) + ",\"files\":{"@ + join_spec(create_members(c.files@), ","@) + "}}"@,
{
    lemma_new_files_joined(c.files@);
}

/// The body of a Gist update is a JSON object with the description when there is one and a
/// `files` object whose members, one per change in order and separated by commas, map each
/// file's name to `{"content": ...}` with its new text, or to `null` to delete it.
pub proof fn lemma_patch_body_lists_every_change(p: GistPatch)
    ensures
        patch_body_spec(p) == "{"@ + match p.description {
            Some(d) => "\"description\":"@ + json_string_spec(d@) + ","@,
            None => Seq::empty(),
        } + "\"files\":{"@ + join_spec(patch_members(p.files@), ","@) + "}}"@,
{
    lemma_file_changes_joined(p.files@);
}

} // verus!
