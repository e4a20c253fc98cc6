use vstd::prelude::*;

use crate::text::{
    chars_of, concat, contains_seq, decimal_spec, decimal_string, has_prefix, has_suffix, owned,
    str_contains, str_ends_with, str_starts_with, trim_spec, trim_str, views,
};

verus! {

/// What `str::to_lowercase` returns for `s`.
pub uninterp spec fn to_lowercase_spec(s: Seq<char>) -> Seq<char>;

/// `str::to_lowercase` as far as it is stated: on ASCII text it lower-cases the ASCII
/// letters and keeps every other character (the Unicode lowercase mapping of an ASCII
/// character is its ASCII lowercase); on other text it is the named function.
pub open spec fn lowercase_spec(s: Seq<char>) -> Seq<char> {
    if vstd::utf8::is_ascii_chars(s) {
        crate::text::ascii_lower(s)
    } else {
        to_lowercase_spec(s)
    }
}

/// Calls `str::to_lowercase`.
/// Claims: ASCII text comes back with its letters lower-cased (Unicode maps `A`-`Z` to
/// `a`-`z` and every other ASCII character to itself); other text gives the named result.
#[verifier::external_body]
pub(crate) fn lowercase(s: &str) -> (r: String)
    ensures
        vstd::utf8::is_ascii_chars(s@) ==> r@ == crate::text::ascii_lower(s@),
        !vstd::utf8::is_ascii_chars(s@) ==> r@ == to_lowercase_spec(s@),
{
    s.to_lowercase()
}

/// The RFC 4880 maximum S2K iteration count, used when none is given.
pub const DEFAULT_S2K_COUNT: u64 = 65011712;

/// Lower-cased key text that looks like an SSH key or key file.
pub open spec fn looks_like_ssh(lower: Seq<char>) -> bool {
    ||| has_prefix(lower, "ssh-"@)
    ||| has_prefix(lower, "ecdsa-"@)
    ||| contains_seq(lower, "id_rsa"@)
    ||| contains_seq(lower, "id_ed25519"@)
    ||| contains_seq(lower, "id_ecdsa"@)
    ||| contains_seq(lower, ".ssh/"@)
    ||| contains_seq(lower, "begin openssh"@)
    ||| contains_seq(lower, "begin rsa private key"@)
}

/// Key text that, trimmed and lower-cased, looks like an SSH key.
pub open spec fn is_ssh_key_text(key: Seq<char>) -> bool {
    looks_like_ssh(lowercase_spec(trim_spec(key)))
}

/// The message of the refusal of an SSH key.
pub open spec fn ssh_violation_message() -> Seq<char> {
    "安全合規違規：系統嚴格鎖定 GPG 金鑰，禁止使用 SSH 金鑰！"@
}

/// Refuses key text that looks like an SSH key (the tool accepts GPG keys only).
pub fn validate_gpg_key_not_ssh(key_str: &str) -> (r: Result<(), String>)
    ensures
        r is Err <==> is_ssh_key_text(key_str@),
        r matches Err(e) ==> e@ == ssh_violation_message(),
{
    let trimmed = trim_str(key_str);
    let lower = lowercase(trimmed.as_str());
    let l = lower.as_str();
    if str_starts_with(l, "ssh-") || str_starts_with(l, "ecdsa-") || str_contains(l, "id_rsa")
        || str_contains(l, "id_ed25519") || str_contains(l, "id_ecdsa") || str_contains(
        l,
        ".ssh/",
    ) || str_contains(l, "begin openssh") || str_contains(l, "begin rsa private key") {
        return Err(owned("安全合規違規：系統嚴格鎖定 GPG 金鑰，禁止使用 SSH 金鑰！"));
    }
    Ok(())
}

/// The number of encryption layers a file name shows: how many `.gpg` or `.asc`
/// suffixes it ends with, one after the other.
pub open spec fn gpg_layers(name: Seq<char>) -> nat
    decreases name.len(),
{
    if name.len() >= 4 && (has_suffix(name, ".gpg"@) || has_suffix(name, ".asc"@)) {
        1 + gpg_layers(name.subrange(0, name.len() - 4))
    } else {
        0
    }
}

/// Counts the encryption layers of a file name.
pub fn calculate_gpg_layer(filename: &str) -> (n: u32)
    requires
        gpg_layers(filename@) <= u32::MAX,
    ensures
        n as nat == gpg_layers(filename@),
{
    let v = chars_of(filename);
    let gpg = chars_of(".gpg");
    let asc = chars_of(".asc");
    proof {
        reveal_strlit(".gpg");
        reveal_strlit(".asc");
    }
    let mut end: usize = v.len();
    let mut count: u32 = 0;
    assert(v@.subrange(0, end as int) =~= v@);
    loop
        invariant
            end <= v.len(),
            v@ == filename@,
            gpg_layers(v@) == count as nat + gpg_layers(v@.subrange(0, end as int)),
            gpg_layers(v@) <= u32::MAX,
            gpg@ == ".gpg"@,
            asc@ == ".asc"@,
            ".gpg"@.len() == 4,
            ".asc"@.len() == 4,
        decreases end,
    {
        let prefix = crate::text::sub_chars(&v, 0, end);
        if !(crate::text::ends_with_chars(&prefix, &gpg) || crate::text::ends_with_chars(
            &prefix,
            &asc,
        )) {
            return count;
        }
        assert(end >= 4);
        assert(v@.subrange(0, end as int).subrange(0, end - 4) =~= v@.subrange(0, end - 4));
        count = count + 1;
        end = end - 4;
    }
}

/// The standard library's UTF-8 conversion error.
#[verifier::external_type_specification]
#[verifier::external_body]
pub struct ExFromUtf8Error(std::string::FromUtf8Error);

/// `String::from_utf8` accepts exactly the valid UTF-8 byte sequences and decodes them.
pub assume_specification[ String::from_utf8 ](vec: Vec<u8>) -> (r: Result<
    String,
    std::string::FromUtf8Error,
>)
    ensures
        r is Ok <==> vstd::utf8::valid_utf8(vec@),
        r matches Ok(s) ==> s@ == vstd::utf8::decode_utf8(vec@),
;

/// The text of the error that `std::str::from_utf8` reports for `bytes` (where the first
/// invalid sequence starts, and how long it is).
pub uninterp spec fn utf8_error_spec(bytes: Seq<u8>) -> Seq<char>;

/// Calls `std::str::from_utf8` and, when it fails, the error's `to_string` (the text that
/// `String::from_utf8`'s error shows too, as it displays the same `Utf8Error`).
/// Claims: there is an error exactly when the bytes are not valid UTF-8 (vstd's
/// `valid_utf8` is UTF-8 as std checks it), and its text is the named function of the
/// bytes.
#[verifier::external_body]
fn utf8_error_text(bytes: &[u8]) -> (r: Option<String>)
    ensures
        r is None <==> vstd::utf8::valid_utf8(bytes@),
        r matches Some(t) ==> t@ == utf8_error_spec(bytes@),
{
    match std::str::from_utf8(bytes) {
        Ok(_) => None,
        Err(e) => Some(e.to_string()),
    }
}

/// What `String::from_utf8_lossy` gives for `bytes`.
pub uninterp spec fn utf8_lossy_spec(bytes: Seq<u8>) -> Seq<char>;

/// Calls `String::from_utf8_lossy` and takes the text.
/// Claims: the text is the named function of the bytes, and valid UTF-8 is decoded as is
/// (invalid sequences become U+FFFD, which is not stated further).
#[verifier::external_body]
fn utf8_lossy(bytes: &[u8]) -> (r: String)
    ensures
        r@ == utf8_lossy_spec(bytes@),
        vstd::utf8::valid_utf8(bytes@) ==> r@ == vstd::utf8::decode_utf8(bytes@),
{
    String::from_utf8_lossy(bytes).into_owned()
}

/// The prefix of the message when a GnuPG result is not valid UTF-8.
pub open spec fn encoding_error_prefix() -> Seq<char> {
    "編碼轉換錯誤: "@
}

/// The message of the refusal of an empty passphrase.
pub open spec fn empty_passphrase_message() -> Seq<char> {
    "對稱加密密碼不得為空。"@
}

/// Builds a list of arguments from string literals and values.
fn push_arg(v: &mut Vec<String>, a: &str)
    ensures
        views(final(v)@) == views(old(v)@).push(a@),
{
    let ghost before = v@;
    v.push(owned(a));
    assert(views(v@) =~= views(before).push(a@));
}

/// The GnuPG arguments that encrypt standard input to `gpg_user_id` as ASCII armor,
/// after the SSH-key check (the refusal comes back instead when it fails).
pub fn encrypt_with_gpg_args(gpg_user_id: &str) -> (r: Result<Vec<String>, String>)
    ensures
        r is Err <==> is_ssh_key_text(gpg_user_id@),
        r matches Err(e) ==> e@ == ssh_violation_message(),
        r matches Ok(a) ==> views(a@) == seq![
            "--batch"@,
            "--yes"@,
            "--trust-model"@,
            "always"@,
            "--encrypt"@,
            "--recipient"@,
            gpg_user_id@,
            "--armor"@,
        ],
{
    match validate_gpg_key_not_ssh(gpg_user_id) {
        Err(e) => Err(e),
        Ok(()) => {
            let mut a: Vec<String> = Vec::new();
            push_arg(&mut a, "--batch");
            push_arg(&mut a, "--yes");
            push_arg(&mut a, "--trust-model");
            push_arg(&mut a, "always");
            push_arg(&mut a, "--encrypt");
            push_arg(&mut a, "--recipient");
            push_arg(&mut a, gpg_user_id);
            push_arg(&mut a, "--armor");
            Ok(a)
        },
    }
}

/// The S2K iteration count used: the given one, or the default for zero.
pub open spec fn s2k_iterations(s2k_count: u64) -> u64 {
    if s2k_count == 0 {
        DEFAULT_S2K_COUNT
    } else {
        s2k_count
    }
}

/// The GnuPG arguments of passphrase encryption (AES-256, S2K mode 3 with SHA-512) with
/// the given iteration count (0 for the default); an empty passphrase is refused.
pub fn encrypt_symmetric_s2k_args(passphrase: &str, s2k_count: u64) -> (r: Result<
    Vec<String>,
    String,
>)
    ensures
        r is Err <==> passphrase@.len() == 0,
        r matches Err(e) ==> e@ == empty_passphrase_message(),
        r matches Ok(a) ==> views(a@) == seq![
            "--batch"@,
            "--yes"@,
            "--symmetric"@,
            "--cipher-algo"@,
            "AES256"@,
            "--s2k-mode"@,
            "3"@,
            "--s2k-digest-algo"@,
            "SHA512"@,
            "--s2k-count"@,
            decimal_spec(s2k_iterations(s2k_count) as nat),
            "--passphrase"@,
            passphrase@,
            "--armor"@,
        ],
{
    if passphrase.is_empty() {
        return Err(owned("對稱加密密碼不得為空。"));
    }
    let iterations: u64 = if s2k_count == 0 {
        DEFAULT_S2K_COUNT
    } else {
        s2k_count
    };
    let count_text = decimal_string(iterations);
    let mut a: Vec<String> = Vec::new();
    push_arg(&mut a, "--batch");
    push_arg(&mut a, "--yes");
    push_arg(&mut a, "--symmetric");
    push_arg(&mut a, "--cipher-algo");
    push_arg(&mut a, "AES256");
    push_arg(&mut a, "--s2k-mode");
    push_arg(&mut a, "3");
    push_arg(&mut a, "--s2k-digest-algo");
    push_arg(&mut a, "SHA512");
    push_arg(&mut a, "--s2k-count");
    push_arg(&mut a, count_text.as_str());
    push_arg(&mut a, "--passphrase");
    push_arg(&mut a, passphrase);
    push_arg(&mut a, "--armor");
    Ok(a)
}

/// The GnuPG arguments that decrypt standard input, with the passphrase when one is given.
pub fn decrypt_bytes_with_gpg_args(passphrase_opt: Option<&str>) -> (a: Vec<String>)
    ensures
        views(a@) == match passphrase_opt {
            Some(p) => seq!["--batch"@, "--yes"@, "--passphrase"@, p@, "--decrypt"@],
            None => seq!["--batch"@, "--yes"@, "--decrypt"@],
        },
{
    let mut a: Vec<String> = Vec::new();
    push_arg(&mut a, "--batch");
    push_arg(&mut a, "--yes");
    match passphrase_opt {
        Some(p) => {
            push_arg(&mut a, "--passphrase");
            push_arg(&mut a, p);
        },
        None => {},
    }
    push_arg(&mut a, "--decrypt");
    a
}

/// The result of a GnuPG run whose output is text: the output when the run succeeded and
/// it is valid UTF-8 (an encoding error otherwise), the error output when it failed.
pub fn gpg_text_result(success: bool, stdout: Vec<u8>, stderr: &[u8]) -> (r: Result<String, String>)
    ensures
        success && vstd::utf8::valid_utf8(stdout@) <==> r is Ok,
        r matches Ok(t) ==> t@ == vstd::utf8::decode_utf8(stdout@),
        r matches Err(e) ==> if success {
            e@ == encoding_error_prefix() + utf8_error_spec(stdout@)
        } else {
            e@ == utf8_lossy_spec(stderr@)
        },
{
    if success {
        text_or_encoding_error(stdout)
    } else {
        Err(utf8_lossy(stderr))
    }
}

/// The output of a GnuPG run whose output is binary: the output when the run succeeded,
/// the error output when it failed.
pub fn gpg_bytes_result(success: bool, stdout: Vec<u8>, stderr: &[u8]) -> (r: Result<Vec<u8>, String>)
    ensures
        success <==> r is Ok,
        r matches Ok(b) ==> b@ == stdout@,
        r matches Err(e) ==> e@ == utf8_lossy_spec(stderr@),
{
    if success {
        Ok(stdout)
    } else {
        Err(utf8_lossy(stderr))
    }
}

/// Decodes bytes as UTF-8 text, or gives the encoding error.
fn text_or_encoding_error(bytes: Vec<u8>) -> (r: Result<String, String>)
    ensures
        vstd::utf8::valid_utf8(bytes@) <==> r is Ok,
        r matches Ok(t) ==> t@ == vstd::utf8::decode_utf8(bytes@),
        r matches Err(e) ==> e@ == encoding_error_prefix() + utf8_error_spec(bytes@),
{
    match utf8_error_text(bytes.as_slice()) {
        Some(detail) => Err(concat("編碼轉換錯誤: ", detail.as_str())),
        None => match String::from_utf8(bytes) {
            Ok(t) => Ok(t),
            Err(_) => Err(owned("編碼轉換錯誤: ")),
        },
    }
}

/// Decrypted bytes as text: the decryption error passes through, and bytes that are not
/// valid UTF-8 give the encoding error.
pub fn decrypt_with_gpg(decrypted: Result<Vec<u8>, String>) -> (r: Result<String, String>)
    ensures
        match decrypted {
            Err(e) => r == Err::<String, String>(e),
            Ok(b) => (vstd::utf8::valid_utf8(b@) <==> r is Ok) && (r matches Ok(t) ==> t@
                == vstd::utf8::decode_utf8(b@)) && (r matches Err(e) ==> e@
                == encoding_error_prefix() + utf8_error_spec(b@)),
        },
{
    match decrypted {
        Err(e) => Err(e),
        Ok(b) => text_or_encoding_error(b),
    }
}

/// Encrypting a file adds one layer: the name with `.gpg` (or `.asc`) appended shows one
/// layer more than the name itself.
pub proof fn lemma_encrypted_name_adds_layer(name: Seq<char>)
    ensures
        gpg_layers(name + ".gpg"@) == gpg_layers(name) + 1,
        gpg_layers(name + ".asc"@) == gpg_layers(name) + 1,
{
    reveal_strlit(".gpg");
    reveal_strlit(".asc");
    let full = name + ".gpg"@;
    assert(full.subrange(full.len() - 4, full.len() as int) =~= ".gpg"@);
    assert(full.subrange(0, full.len() - 4) =~= name);
    let full2 = name + ".asc"@;
    assert(full2.subrange(full2.len() - 4, full2.len() as int) =~= ".asc"@);
    assert(full2.subrange(0, full2.len() - 4) =~= name);
}

/// A name shows at most one layer per four characters.
pub proof fn lemma_layers_bounded(name: Seq<char>)
    ensures
        4 * gpg_layers(name) <= name.len(),
    decreases name.len(),
{
    if name.len() >= 4 && (has_suffix(name, ".gpg"@) || has_suffix(name, ".asc"@)) {
        lemma_layers_bounded(name.subrange(0, name.len() - 4));
    }
}

/// The SSH-key check ignores surrounding White_Space and the case of ASCII letters: an
/// ASCII key gives the same verdict upper-cased and padded with White_Space.
pub proof fn lemma_ssh_check_ignores_case_and_space(key: Seq<char>, before: Seq<char>, after: Seq<char>)
    requires
        vstd::utf8::is_ascii_chars(key),
        crate::text::all_ws(before),
        crate::text::all_ws(after),
    ensures
        is_ssh_key_text(before + crate::text::ascii_upper(key) + after) == is_ssh_key_text(key),
{
    let u = crate::text::ascii_upper(key);
    crate::text::lemma_trim_padded(before, u, after);
    crate::text::lemma_trim_ascii_upper(key);
    let t = trim_spec(key);
    crate::text::lemma_trim_is_part(key);
    let (i, j) = choose|i: int, j: int| 0 <= i <= j <= key.len() && trim_spec(key) == #[trigger] key.subrange(i, j);
    assert(vstd::utf8::is_ascii_chars(t)) by {
        assert forall|k: int| 0 <= k < t.len() implies '\0' <= #[trigger] t[k] <= '\u{7f}' by {
            assert(t[k] == key[i + k]);
        }
    }
    crate::text::lemma_ascii_lower_upper(t);
}

} // verus!
