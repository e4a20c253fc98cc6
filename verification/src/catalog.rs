use vstd::prelude::*;

use crate::commands::{contains_name, names_not_in, names_without, sorted_unique, strictly_sorted};
use crate::ledger::{KeyLedger, KeyLedgerEntry};
use crate::text::{
    chars_of, concat, contains_seq, decimal_spec, decimal_string, has_prefix, has_suffix, owned,
    str_contains, str_ends_with, str_eq, str_starts_with, views,
};

verus! {

/// The last component of a `/`-separated path that is neither empty nor `.`, as
/// `Path::components` reads a path on Unix (empty parts and `.` after the first are
/// skipped, and a leading `.` is no normal component either).
pub open spec fn last_component(p: Seq<char>) -> Option<Seq<char>>
    decreases p.len(),
{
    if p.len() == 0 {
        None
    } else if p.last() == '/' {
        last_component(p.drop_last())
    } else if crate::text::after_last(p, '/') == "."@ {
        last_component(p.drop_last())
    } else {
        Some(crate::text::after_last(p, '/'))
    }
}

/// What `Path::file_name` gives for `path` on Unix: its last component when that is a
/// normal name, `None` when it is `..` or when there is none (the root, `.`, the empty
/// path).
pub open spec fn path_file_name_spec(path: Seq<char>) -> Option<Seq<char>> {
    match last_component(path) {
        Some(c) => if c == ".."@ {
            None
        } else {
            Some(c)
        },
        None => None,
    }
}

/// The file name of `path`, as `std::path::Path::file_name` gives it on Unix.
fn path_file_name(path: &str) -> (r: Option<String>)
    ensures
        match r {
            Some(n) => path_file_name_spec(path@) == Some(n@),
            None => path_file_name_spec(path@) is None,
        },
{
    proof {
        reveal_strlit(".");
        reveal_strlit("..");
    }
    let v = chars_of(path);
    let mut j: usize = v.len();
    assert(v@.take(j as int) =~= v@);
    loop
        invariant
            j <= v@.len(),
            v@ == path@,
            last_component(v@) == last_component(v@.take(j as int)),
            "."@ =~= seq!['.'],
            ".."@ =~= seq!['.', '.'],
        decreases j,
    {
        if j == 0 {
            return None;
        }
        let ghost t = v@.take(j as int);
        assert(t.drop_last() =~= v@.take(j - 1));
        assert(t.last() == v@[j - 1]);
        if v[j - 1] == '/' {
            j = j - 1;
        } else {
            let prefix = crate::text::sub_chars(&v, 0, j);
            assert(prefix@ =~= t);
            let seg = crate::text::after_last_vec(&prefix, '/');
            if seg.len() == 1 && seg[0] == '.' {
                assert(seg@ =~= "."@);
                j = j - 1;
            } else {
                assert(seg@ != "."@);
                if seg.len() == 2 && seg[0] == '.' && seg[1] == '.' {
                    assert(seg@ =~= ".."@);
                    return None;
                }
                assert(seg@ != ".."@);
                return Some(crate::text::string_of(&seg));
            }
        }
    }
}

/// The name under which an encrypted file is recorded: the file name of its output
/// path, or the whole path when it has none.
pub fn output_file_name(out_path: &str) -> (r: String)
    ensures
        r@ == match path_file_name_spec(out_path@) {
            Some(n) => n,
            None => out_path@,
        },
{
    match path_file_name(out_path) {
        Some(n) => n,
        None => owned(out_path),
    }
}

/// The Gist file that a pushed file becomes: its file name (`file` when it has none), with
/// `.gpg` added unless it is sent as it is.
pub fn sync_remote_name(custom_path: &str, raw: bool) -> (r: String)
    ensures
        r@ == ({
            let stem = match path_file_name_spec(custom_path@) {
                Some(n) => n,
                None => "file"@,
            };
            if raw {
                stem
            } else {
                stem + ".gpg"@
            }
        }),
{
    let stem = match path_file_name(custom_path) {
        Some(n) => n,
        None => owned("file"),
    };
    if raw {
        stem
    } else {
        concat(stem.as_str(), ".gpg")
    }
}

/// A directory entry listed as a local file: its name does not start with `.`.
pub open spec fn is_listed_name(name: Seq<char>) -> bool {
    !has_prefix(name, "."@)
}

/// The local files shown after the remote ones: listed entries that are not remote
/// files, sorted, without repeats.
pub fn local_only_files(local: &Vec<String>, cloud: &Vec<String>) -> (r: Vec<String>)
    ensures
        strictly_sorted(views(r@)),
        forall|x: Seq<char>|
            views(r@).contains(x) <==> (views(local@).contains(x) && is_listed_name(x) && !views(
                cloud@,
            ).contains(x)),
{
    let mut listed: Vec<String> = Vec::new();
    let mut i: usize = 0;
    while i < local.len()
        invariant
            i <= local@.len(),
            forall|x: Seq<char>|
                #[trigger] views(listed@).contains(x) <==> (views(local@).take(i as int).contains(x)
                    && is_listed_name(x)),
        decreases local.len() - i,
    {
        let ghost before = listed@;
        let ghost t0 = views(local@).take(i as int);
        let ghost a = local@[i as int]@;
        assert(views(local@).take(i + 1) =~= t0.push(a));
        proof {
            lemma_push_contains(t0, a);
        }
        if !str_starts_with(local[i].as_str(), ".") {
            listed.push(local[i].clone());
            assert(views(listed@) =~= views(before).push(a));
            proof {
                lemma_push_contains(views(before), a);
                assert forall|x: Seq<char>|
                    views(listed@).contains(x) <==> (t0.push(a).contains(x) && is_listed_name(x)) by {
                    assert(views(listed@).contains(x) <==> views(before).push(a).contains(x));
                    assert(views(before).contains(x) <==> (t0.contains(x) && is_listed_name(x)));
                }
            }
        } else {
            proof {
                assert forall|x: Seq<char>|
                    views(listed@).contains(x) <==> (t0.push(a).contains(x) && is_listed_name(x)) by {
                    assert(views(before).contains(x) <==> (t0.contains(x) && is_listed_name(x)));
                    assert(t0.push(a).contains(x) <==> (t0.contains(x) || x == a));
                }
            }
        }
        i = i + 1;
    }
    assert(views(local@).take(local@.len() as int) =~= views(local@));
    let others = names_without(&listed, cloud);
    let r = sorted_unique(&others);
    proof {
        lemma_names_not_in_members(views(listed@), views(cloud@));
        assert forall|x: Seq<char>|
            views(r@).contains(x) <==> (views(local@).contains(x) && is_listed_name(x) && !views(
                cloud@,
            ).contains(x)) by {
            assert(views(r@).contains(x) <==> views(others@).contains(x));
            assert(views(others@).contains(x) <==> names_not_in(views(listed@), views(cloud@)).contains(x));
            assert(views(listed@).contains(x) <==> (views(local@).take(local@.len() as int).contains(x)
                && is_listed_name(x)));
        }
    }
    r
}

proof fn lemma_push_contains(s: Seq<Seq<char>>, a: Seq<char>)
    ensures
        forall|x: Seq<char>| #[trigger] s.push(a).contains(x) <==> (s.contains(x) || x == a),
{
    assert forall|x: Seq<char>| #[trigger] s.push(a).contains(x) <==> (s.contains(x) || x == a) by {
        if s.contains(x) {
            let k = choose|k: int| 0 <= k < s.len() && s[k] == x;
            assert(s.push(a)[k] == x);
        }
        if x == a {
            assert(s.push(a)[s.len() as int] == x);
        }
        if s.push(a).contains(x) && x != a {
            let k = choose|k: int| 0 <= k < s.len() + 1 && s.push(a)[k] == x;
            assert(s[k] == x);
        }
    }
}

/// A name is kept by `names_not_in` exactly when it occurs and is not excluded.
#[verifier::spinoff_prover]
pub proof fn lemma_names_not_in_members(s: Seq<Seq<char>>, ex: Seq<Seq<char>>)
    ensures
        forall|x: Seq<char>| #[trigger] names_not_in(s, ex).contains(x) <==> (s.contains(x) && !ex.contains(x)),
    decreases s.len(),
{
    if s.len() > 0 {
        let d = s.drop_last();
        let a = s.last();
        lemma_names_not_in_members(d, ex);
        assert(s =~= d.push(a));
        lemma_push_contains(d, a);
        let r = names_not_in(d, ex);
        lemma_push_contains(r, a);
        assert forall|x: Seq<char>| #[trigger] names_not_in(s, ex).contains(x) <==> (s.contains(x)
            && !ex.contains(x)) by {
            assert(s.contains(x) <==> (d.contains(x) || x == a));
            assert(r.contains(x) <==> (d.contains(x) && !ex.contains(x)));
        }
    }
}

/// The remote files to show when the Gist cannot be reached: the cached list when there
/// is one, else the files of the ledger's records; sorted, without repeats.
pub fn offline_cloud_names(cached: Option<&Vec<String>>, ledger: &KeyLedger) -> (r: Vec<String>)
    ensures
        strictly_sorted(views(r@)),
        forall|x: Seq<char>|
            views(r@).contains(x) <==> match cached {
                Some(c) => views(c@).contains(x),
                None => exists|j: int|
                    0 <= j < ledger.records@.len() && #[trigger] ledger.records@[j].file_name@ == x,
            },
{
    match cached {
        Some(c) => sorted_unique(c),
        None => {
            let mut names: Vec<String> = Vec::new();
            let mut i: usize = 0;
            while i < ledger.records.len()
                invariant
                    i <= ledger.records@.len(),
                    names@.len() == i,
                    forall|j: int| 0 <= j < i ==> #[trigger] views(names@)[j] == ledger.records@[j].file_name@,
                decreases ledger.records.len() - i,
            {
                let ghost before = names@;
                names.push(ledger.records[i].file_name.clone());
                assert(views(names@) =~= views(before).push(ledger.records@[i as int].file_name@));
                i = i + 1;
            }
            let r = sorted_unique(&names);
            assert forall|x: Seq<char>| views(r@).contains(x) <==> exists|j: int|
                0 <= j < ledger.records@.len() && #[trigger] ledger.records@[j].file_name@ == x by {
                if views(names@).contains(x) {
                    let k = choose|k: int| 0 <= k < names@.len() && views(names@)[k] == x;
                    assert(ledger.records@[k].file_name@ == x);
                }
                if exists|j: int| 0 <= j < ledger.records@.len() && #[trigger] ledger.records@[j].file_name@ == x {
                    let k = choose|j: int| 0 <= j < ledger.records@.len() && #[trigger] ledger.records@[j].file_name@ == x;
                    assert(views(names@)[k] == x);
                }
            }
            r
        },
    }
}

/// `[NN]`: a row number, zero-padded to two digits.
pub open spec fn row_label_spec(n: nat) -> Seq<char> {
    "["@ + (if n < 10 {
        "0"@ + decimal_spec(n)
    } else {
        decimal_spec(n)
    }) + "]"@
}

/// The label of row `n` of the file table.
pub fn row_label(n: u64) -> (r: String)
    ensures
        r@ == row_label_spec(n as nat),
{
    let mut r = owned("[");
    if n < 10 {
        r.append("0");
    }
    r.append(decimal_string(n).as_str());
    r.append("]");
    r
}

/// The web address of the Gist, for a configured Gist ID.
pub fn repository_url(gist_id: &str) -> (r: Option<String>)
    ensures
        match r {
            Some(u) => gist_id@.len() > 0 && gist_id@ != "未配置"@ && u@ == "https://gist.github.com/"@
                + crate::clean_id_spec(gist_id@),
            None => gist_id@.len() == 0 || gist_id@ == "未配置"@,
        },
{
    if gist_id.is_empty() || str_eq(gist_id, "未配置") {
        None
    } else {
        let id = crate::GameConfig::extract_clean_id(gist_id);
        Some(concat("https://gist.github.com/", id.as_str()))
    }
}

/// The facts shown about one file.
pub struct FileDetails {
    pub key_id: String,
    pub cipher_mode: String,
    pub layer: u32,
    pub notes: String,
    pub status: &'static str,
    pub cloud_status: &'static str,
}

/// Describes the file `file_name` from its ledger record, if any: the record's key,
/// cipher and layer, else what its `.gpg` suffix implies; whether it is backed up (in the
/// Gist, or recorded).
pub fn file_details(file_name: &str, entry: Option<&KeyLedgerEntry>, in_cloud: bool) -> (d: FileDetails)
    ensures
        ({
            let gpg = has_suffix(file_name@, ".gpg"@);
            &&& d.key_id@ == match entry {
                Some(e) => e.key_id@,
                None => if gpg {
                    "未知"@
                } else {
                    "-"@
                },
            }
            &&& d.cipher_mode@ == match entry {
                Some(e) => e.cipher_mode@,
                None => if gpg {
                    "GPG_ENCRYPTED"@
                } else {
                    "PLAINTEXT"@
                },
            }
            &&& d.layer == match entry {
                Some(e) => e.layer,
                None => if gpg {
                    1u32
                } else {
                    0u32
                },
            }
            &&& d.notes@ == match entry {
                Some(e) => e.notes@,
                None => "無審計備註"@,
            }
            &&& d.status@ == if gpg {
                "🛡️ GPG/RSA"@
            } else {
                "📄 明文"@
            }
            &&& d.cloud_status@ == if in_cloud || entry is Some {
                "🌐 雲端已備份"@
            } else {
                "❌ 僅本地存在"@
            }
        }),
{
    let gpg = str_ends_with(file_name, ".gpg");
    let (key_id, cipher_mode, layer, notes) = match entry {
        Some(e) => (e.key_id.clone(), e.cipher_mode.clone(), e.layer, e.notes.clone()),
        None => (
            if gpg {
                owned("未知")
            } else {
                owned("-")
            },
            if gpg {
                owned("GPG_ENCRYPTED")
            } else {
                owned("PLAINTEXT")
            },
            if gpg {
                1u32
            } else {
                0u32
            },
            owned("無審計備註"),
        ),
    };
    FileDetails {
        key_id,
        cipher_mode,
        layer,
        notes,
        status: if gpg {
            "🛡️ GPG/RSA"
        } else {
            "📄 明文"
        },
        cloud_status: if in_cloud || entry.is_some() {
            "🌐 雲端已備份"
        } else {
            "❌ 僅本地存在"
        },
    }
}

/// The key ID and cipher of a record made for a remote file while aligning the ledger: a
/// plain file gets `-` and `PLAINTEXT`; an encrypted one the key ID read from its packets
/// when that is usable (else an empty ID) and `GPG_ENCRYPTED`.
pub fn aligned_key_fields(is_gpg: bool, extracted: Option<&str>) -> (r: (String, String))
    ensures
        r.1@ == if is_gpg {
            "GPG_ENCRYPTED"@
        } else {
            "PLAINTEXT"@
        },
        r.0@ == if !is_gpg {
            "-"@
        } else {
            match extracted {
                Some(k) => if crate::ledger::usable_key_id_spec(k@) {
                    k@
                } else {
                    Seq::<char>::empty()
                },
                None => Seq::<char>::empty(),
            }
        },
{
    if !is_gpg {
        return (owned("-"), owned("PLAINTEXT"));
    }
    let key = match extracted {
        Some(k) => {
            if crate::ledger::usable_key_id(k) {
                owned(k)
            } else {
                String::new()
            }
        },
        None => String::new(),
    };
    (key, owned("GPG_ENCRYPTED"))
}

/// Whether a failed remote deletion only says that the file is already gone (HTTP 422 or
/// 404, or a missing field).
pub fn already_gone(err: &str) -> (b: bool)
    ensures
        b == (contains_seq(err@, "422"@) || contains_seq(err@, "404"@) || contains_seq(
            err@,
            "missing_field"@,
        )),
{
    str_contains(err, "422") || str_contains(err, "404") || str_contains(err, "missing_field")
}

/// A directory entry that `--all` encryption takes: not already encrypted (`.gpg`,
/// `.asc`) and not hidden.
pub fn encrypt_all_candidate(name: &str) -> (b: bool)
    ensures
        b == (!has_suffix(name@, ".gpg"@) && !has_suffix(name@, ".asc"@) && !has_prefix(name@, "."@)),
{
    !str_ends_with(name, ".gpg") && !str_ends_with(name, ".asc") && !str_starts_with(name, ".")
}

/// A directory entry that `--all` decryption takes: a `.gpg` file.
pub fn decrypt_all_candidate(name: &str) -> (b: bool)
    ensures
        b == has_suffix(name@, ".gpg"@),
{
    str_ends_with(name, ".gpg")
}

/// A file that a recursive scan collects: not hidden, and not one of the configuration
/// files kept beside the notes.
pub fn keep_scanned_file(name: &str) -> (b: bool)
    ensures
        b == (!has_prefix(name@, "."@) && name@ != "config.dae"@ && name@ != "gist_id"@ && name@
            != "key_id"@),
{
    !str_starts_with(name, ".") && !str_eq(name, "config.dae") && !str_eq(name, "gist_id")
        && !str_eq(name, "key_id")
}

/// A directory that a recursive scan enters: not hidden, not `node_modules`, not `target`.
pub fn descend_into(dir_name: &str) -> (b: bool)
    ensures
        b == (!has_prefix(dir_name@, "."@) && dir_name@ != "node_modules"@ && dir_name@ != "target"@
            && dir_name@ != ".git"@),
{
    !str_starts_with(dir_name, ".") && !str_eq(dir_name, "node_modules") && !str_eq(
        dir_name,
        "target",
    ) && !str_eq(dir_name, ".git")
}

/// `s` with every `\` replaced by `/`.
pub open spec fn forward_slashes(s: Seq<char>) -> Seq<char> {
    Seq::new(
        s.len(),
        |i: int|
            if s[i] == '\\' {
                '/'
            } else {
                s[i]
            },
    )
}

/// A relative path written with `/` separators only.
pub fn with_forward_slashes(rel: &str) -> (r: String)
    ensures
        r@ == forward_slashes(rel@),
{
    let v = chars_of(rel);
    let mut out: Vec<char> = Vec::new();
    let mut i: usize = 0;
    while i < v.len()
        invariant
            i <= v@.len(),
            out@ == forward_slashes(v@).take(i as int),
            v@ == rel@,
        decreases v.len() - i,
    {
        if v[i] == '\\' {
            out.push('/');
        } else {
            out.push(v[i]);
        }
        assert(out@ =~= forward_slashes(v@).take(i + 1));
        i = i + 1;
    }
    assert(out@ =~= forward_slashes(v@));
    crate::text::string_of(&out)
}

/// Whether a local file is to be removed when aligning to the Gist: the Gist lists some
/// file (an empty listing removes nothing), and neither the local path nor, when
/// decrypting, that path with `.gpg` added is a remote file.
pub open spec fn is_local_orphan(rel: Seq<char>, remote: Seq<Seq<char>>, decrypt: bool) -> bool {
    remote.len() > 0 && !(remote.contains(rel) || (decrypt && remote.contains(rel + ".gpg"@)))
}

/// For each local file (by relative path), whether it is an orphan to remove.
pub fn local_orphans(local: &Vec<String>, remote: &Vec<String>, decrypt: bool) -> (r: Vec<bool>)
    ensures
        r@.len() == local@.len(),
        forall|i: int|
            0 <= i < local@.len() ==> #[trigger] r@[i] == is_local_orphan(
                local@[i]@,
                views(remote@),
                decrypt,
            ),
{
    let mut r: Vec<bool> = Vec::new();
    let mut i: usize = 0;
    while i < local.len()
        invariant
            i <= local@.len(),
            r@.len() == i,
            forall|j: int|
                0 <= j < i ==> #[trigger] r@[j] == is_local_orphan(local@[j]@, views(remote@), decrypt),
        decreases local.len() - i,
    {
        let name = local[i].as_str();
        let matched = remote.len() == 0 || contains_name(remote, name) || (decrypt && {
            let with_gpg = concat(name, ".gpg");
            contains_name(remote, with_gpg.as_str())
        });
        r.push(!matched);
        i = i + 1;
    }
    r
}

/// The last 8 bytes of a key ID's UTF-8 form (the whole ID when it is shorter), as text.
pub open spec fn short_key_id_spec(key: Seq<char>) -> Seq<char> {
    let b = vstd::utf8::encode_utf8(key);
    if b.len() >= 8 {
        vstd::utf8::decode_utf8(b.subrange(b.len() - 8, b.len() as int))
    } else {
        key
    }
}

/// The short form of a key ID: its last 8 bytes. The cut must fall between characters.
pub fn short_key_id(key: &str) -> (r: &str)
    requires
        vstd::utf8::encode_utf8(key@).len() >= 8 ==> vstd::utf8::is_char_boundary(
            vstd::utf8::encode_utf8(key@),
            vstd::utf8::encode_utf8(key@).len() - 8,
        ),
    ensures
        r@ == short_key_id_spec(key@),
{
    let n = key.as_bytes().len();
    if n >= 8 {
        let (_, tail) = key.split_at(n - 8);
        proof {
            vstd::utf8::encode_utf8_decode_utf8(tail@);
        }
        tail
    } else {
        key
    }
}

/// How the key of an encryption is shown: symmetric encryption by name, a public key by
/// the short form of its ID.
pub fn key_display(cipher_mode: &str, key_id_used: &str) -> (r: String)
    requires
        cipher_mode@ != "GPG_SYMMETRIC_S2K"@ && vstd::utf8::encode_utf8(key_id_used@).len() >= 8
            ==> vstd::utf8::is_char_boundary(
            vstd::utf8::encode_utf8(key_id_used@),
            vstd::utf8::encode_utf8(key_id_used@).len() - 8,
        ),
    ensures
        r@ == if cipher_mode@ == "GPG_SYMMETRIC_S2K"@ {
            "GPG 對稱加密"@
        } else {
            "GPG 公鑰加密 (Key ID: "@ + short_key_id_spec(key_id_used@) + ")"@
        },
{
    if str_eq(cipher_mode, "GPG_SYMMETRIC_S2K") {
        owned("GPG 對稱加密")
    } else {
        let mut r = owned("GPG 公鑰加密 (Key ID: ");
        r.append(short_key_id(key_id_used));
        r.append(")");
        r
    }
}

/// The key label recorded for a symmetric encryption with `iterations` S2K rounds.
pub fn symmetric_key_label(iterations: u64) -> (r: String)
    ensures
        r@ == "SYMMETRIC-S2K ("@ + decimal_spec(iterations as nat) + " 輪)"@,
{
    let mut r = owned("SYMMETRIC-S2K (");
    r.append(decimal_string(iterations).as_str());
    r.append(" 輪)");
    r
}

/// The ledger note of an encryption that produced layer `layer`.
pub fn layer_note(layer: u32) -> (r: String)
    ensures
        r@ == "批量/複合封裝第 "@ + decimal_spec(layer as nat) + " 層"@,
{
    let mut r = owned("批量/複合封裝第 ");
    r.append(decimal_string(layer as u64).as_str());
    r.append(" 層");
    r
}

/// How a file is to be encrypted.
#[derive(Debug, PartialEq, Eq)]
pub enum EncryptionChoice {
    /// Symmetrically, with this passphrase.
    Symmetric(String),
    /// To this public key.
    PublicKey(String),
}

/// The encryption that the options ask for: a passphrase wins; else the key named on
/// the command line; else the configured default key. `None` when there is neither a
/// passphrase nor any key.
pub fn encryption_choice(
    passphrase: Option<String>,
    key_opt: Option<String>,
    default_key: Option<String>,
) -> (r: Option<EncryptionChoice>)
    ensures
        r == match passphrase {
            Some(p) => Some(EncryptionChoice::Symmetric(p)),
            None => match key_opt {
                Some(k) => Some(EncryptionChoice::PublicKey(k)),
                None => match default_key {
                    Some(d) => Some(EncryptionChoice::PublicKey(d)),
                    None => None,
                },
            },
        },
{
    match passphrase {
        Some(p) => Some(EncryptionChoice::Symmetric(p)),
        None => match key_opt {
            Some(k) => Some(EncryptionChoice::PublicKey(k)),
            None => match default_key {
                Some(d) => Some(EncryptionChoice::PublicKey(d)),
                None => None,
            },
        },
    }
}

/// What the ledger records of an encryption: the cipher mode, the key label and the
/// S2K rounds (none for a public key).
#[derive(Debug, PartialEq, Eq)]
pub struct EncryptionRecord {
    pub cipher_mode: String,
    pub key_id: String,
    pub iterations: u64,
}

/// The ledger facts of an encryption made as `choice` says, with `s2k_count` rounds
/// where it is symmetric.
pub fn encryption_record(choice: &EncryptionChoice, s2k_count: u64) -> (r: EncryptionRecord)
    ensures
        match choice {
            EncryptionChoice::Symmetric(_) => {
                &&& r.cipher_mode@ == "GPG_SYMMETRIC_S2K"@
                &&& r.key_id@ == "SYMMETRIC-S2K ("@ + decimal_spec(s2k_count as nat) + " 輪)"@
                &&& r.iterations == s2k_count
            },
            EncryptionChoice::PublicKey(k) => {
                &&& r.cipher_mode@ == "GPG_PUBLIC_KEY"@
                &&& r.key_id@ == k@
                &&& r.iterations == 0
            },
        },
{
    match choice {
        EncryptionChoice::Symmetric(_) => EncryptionRecord {
            cipher_mode: owned("GPG_SYMMETRIC_S2K"),
            key_id: symmetric_key_label(s2k_count),
            iterations: s2k_count,
        },
        EncryptionChoice::PublicKey(k) => EncryptionRecord {
            cipher_mode: owned("GPG_PUBLIC_KEY"),
            key_id: owned(k.as_str()),
            iterations: 0,
        },
    }
}

/// Whether the Gist changed since the commit hash last seen (none seen counts as the
/// empty hash), so that the ledger has to be aligned with it.
pub fn needs_ledger_sync(cached: Option<&str>, remote: &str) -> (b: bool)
    ensures
        b == (remote@ != match cached {
            Some(c) => c@,
            None => ""@,
        }),
{
    match cached {
        Some(c) => !str_eq(remote, c),
        None => !str_eq(remote, ""),
    }
}

/// The size recorded for a file when aligning the ledger: its local size when the local
/// copy could be measured, else the size the Gist reports.
pub fn aligned_size(local: Option<u64>, remote: u64) -> (r: u64)
    ensures
        r == match local {
            Some(n) => n,
            None => remote,
        },
{
    match local {
        Some(n) => n,
        None => remote,
    }
}

/// The ledger note of a remote in-place encryption of `target`.
pub fn remote_encrypt_note(target: &str, delete_original: bool) -> (r: String)
    ensures
        r@ == "遠端在位套殼加密 (原明文檔: "@ + target@ + (if delete_original {
            "，已在遠端銷毀"@
        } else {
            ""@
        }) + ")"@,
{
    let mut r = owned("遠端在位套殼加密 (原明文檔: ");
    r.append(target);
    if delete_original {
        r.append("，已在遠端銷毀");
    } else {
        r.append("");
    }
    r.append(")");
    r
}

/// The key that a remote in-place encryption uses: the configured key when there is one
/// that is not blank, else `CyberNOte-Key`.
pub fn remote_encrypt_key(configured: Result<String, String>) -> (r: String)
    ensures
        r@ == match configured {
            Ok(k) => if crate::text::trim_spec(k@).len() > 0 {
                k@
            } else {
                "CyberNOte-Key"@
            },
            Err(_) => "CyberNOte-Key"@,
        },
{
    match configured {
        Ok(k) => {
            let t = crate::text::trim_str(k.as_str());
            if t.as_str().is_empty() {
                owned("CyberNOte-Key")
            } else {
                k
            }
        },
        Err(_) => owned("CyberNOte-Key"),
    }
}

} // verus!
