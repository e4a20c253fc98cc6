use vstd::prelude::*;

use crate::text::{
    chars_of, contains_chars, contains_seq, hex_digit, is_hex_char, lines_spec, owned,
    split_lines, split_words, string_of, views, words_spec,
};

verus! {

/// The SHA-256 digest of `data`.
pub uninterp spec fn sha256_spec(data: Seq<u8>) -> Seq<u8>;

/// Computes SHA-256 with `sha2::Sha256` (`new`, `update`, `finalize`).
/// Claims: the digest is the named function of the data, 32 bytes long (the output size
/// that sha2 declares for SHA-256).
#[verifier::external_body]
fn sha256_digest(data: &[u8]) -> (d: Vec<u8>)
    ensures
        d@ == sha256_spec(data@),
        d@.len() == 32,
{
    let mut hasher = <sha2::Sha256 as sha2::Digest>::new();
    sha2::Digest::update(&mut hasher, data);
    sha2::Digest::finalize(hasher).to_vec()
}

/// One archived encrypted file in the key ledger.
pub struct KeyLedgerEntry {
    pub id: String,
    pub file_name: String,
    pub target_path: String,
    pub key_id: String,
    pub cipher_mode: String,
    pub iterations: u64,
    pub layer: u32,
    pub timestamp: String,
    pub file_size_bytes: usize,
    pub sha256: String,
    pub notes: String,
}

/// The key ledger: who encrypted what, with which key and how many layers.
pub struct KeyLedger {
    pub system: String,
    pub version: String,
    pub updated_at: String,
    pub records: Vec<KeyLedgerEntry>,
}

impl KeyLedger {
    /// An empty ledger of this system, stamped `updated_at` (the local time when it was
    /// made, as RFC 3339 text).
    pub fn new(updated_at: String) -> (l: Self)
        ensures
            l.system@ == "Cyber-NOte"@,
            l.version@ == "1.0.0"@,
            l.updated_at == updated_at,
            l.records@.len() == 0,
    {
        KeyLedger {
            system: owned("Cyber-NOte"),
            version: owned("1.0.0"),
            updated_at,
            records: Vec::new(),
        }
    }
}

/// Lowercase hexadecimal, two digits per byte, most significant digit first.
pub open spec fn hex_lower(data: Seq<u8>) -> Seq<char>
    decreases data.len(),
{
    if data.len() == 0 {
        Seq::empty()
    } else {
        hex_lower(data.drop_last()).push(hex_digit((data.last() / 16) as int)).push(
            hex_digit((data.last() % 16) as int),
        )
    }
}

/// The lowercase hexadecimal digit of `d` (`d < 16`).
fn hex_char(d: u8) -> (c: char)
    requires
        d < 16,
    ensures
        c == hex_digit(d as int),
{
    if d < 10 {
        (48u8 + d) as char
    } else {
        (87u8 + d) as char
    }
}

/// The lowercase hexadecimal form of `data`, as `format!("{:x}", ..)` prints a digest.
pub fn to_hex_lower(data: &[u8]) -> (s: String)
    ensures
        s@ == hex_lower(data@),
{
    let mut s = String::new();
    let mut i: usize = 0;
    while i < data.len()
        invariant
            i <= data@.len(),
            s@ == hex_lower(data@.take(i as int)),
        decreases data.len() - i,
    {
        assert(data@.take(i + 1).drop_last() =~= data@.take(i as int));
        let b: u8 = data[i];
        s.push(hex_char(b / 16));
        s.push(hex_char(b % 16));
        i = i + 1;
    }
    assert(data@.take(data@.len() as int) =~= data@);
    s
}

/// The SHA-256 digest of `data` in lowercase hexadecimal (64 characters).
pub fn compute_sha256(data: &[u8]) -> (s: String)
    ensures
        s@ == hex_lower(sha256_spec(data@)),
        s@.len() == 64,
{
    let d = sha256_digest(data);
    proof {
        lemma_hex_lower_shape(d@);
    }
    to_hex_lower(d.as_slice())
}

/// Lowercase hexadecimal has two digits per byte, each `0`-`9` or `a`-`f`.
pub proof fn lemma_hex_lower_shape(data: Seq<u8>)
    ensures
        hex_lower(data).len() == 2 * data.len(),
        forall|i: int|
            0 <= i < hex_lower(data).len() ==> ({
                let c = #[trigger] hex_lower(data)[i];
                ('0' <= c && c <= '9') || ('a' <= c && c <= 'f')
            }),
    decreases data.len(),
{
    if data.len() > 0 {
        lemma_hex_lower_shape(data.drop_last());
        let h = hex_lower(data.drop_last());
        let b = data.last();
        let r = h.push(hex_digit((b / 16) as int)).push(hex_digit((b % 16) as int));
        assert forall|i: int| 0 <= i < r.len() implies ({
            let c = #[trigger] r[i];
            ('0' <= c && c <= '9') || ('a' <= c && c <= 'f')
        }) by {
            if i < h.len() {
                assert(r[i] == h[i]);
            }
        }
    }
}

/// A line of a packet listing that may name a key.
pub open spec fn mentions_key(line: Seq<char>) -> bool {
    ||| contains_seq(line, "keyid"@)
    ||| contains_seq(line, "key ID"@)
    ||| contains_seq(line, "issuer"@)
}

/// A word that reads as a key ID: at least 8 characters, all hexadecimal digits.
pub open spec fn is_key_id_word(w: Seq<char>) -> bool {
    w.len() >= 8 && forall|i: int| 0 <= i < w.len() ==> is_hex_char(#[trigger] w[i])
}

/// The first word of `ws` that reads as a key ID.
pub open spec fn first_key_id_word(ws: Seq<Seq<char>>) -> Option<Seq<char>>
    decreases ws.len(),
{
    if ws.len() == 0 {
        None
    } else if is_key_id_word(ws[0]) {
        Some(ws[0])
    } else {
        first_key_id_word(ws.drop_first())
    }
}

/// The first key ID named on a line that mentions a key.
pub open spec fn first_key_id(lines: Seq<Seq<char>>) -> Option<Seq<char>>
    decreases lines.len(),
{
    if lines.len() == 0 {
        None
    } else if mentions_key(lines[0]) && first_key_id_word(words_spec(lines[0])) is Some {
        first_key_id_word(words_spec(lines[0]))
    } else {
        first_key_id(lines.drop_first())
    }
}

/// What is recorded when no key ID can be read from a packet listing.
pub open spec fn unknown_key_text() -> Seq<char> {
    "對稱加固 (S2K) 或 GPG 封包"@
}

/// The key ID that a GnuPG packet listing names, read from its standard output and
/// standard error joined by a newline; the fallback text when none is named.
pub open spec fn key_id_from_listing_spec(stdout: Seq<char>, stderr: Seq<char>) -> Seq<char> {
    match first_key_id(lines_spec(stdout + "\n"@ + stderr)) {
        Some(k) => k,
        None => unknown_key_text(),
    }
}

fn is_hex(c: char) -> (b: bool)
    ensures
        b == is_hex_char(c),
{
    ('0' <= c && c <= '9') || ('a' <= c && c <= 'f') || ('A' <= c && c <= 'F')
}

fn key_id_word(w: &Vec<char>) -> (b: bool)
    ensures
        b == is_key_id_word(w@),
{
    if w.len() < 8 {
        return false;
    }
    let mut i: usize = 0;
    while i < w.len()
        invariant
            i <= w.len(),
            forall|j: int| 0 <= j < i ==> is_hex_char(#[trigger] w@[j]),
        decreases w.len() - i,
    {
        if !is_hex(w[i]) {
            return false;
        }
        i = i + 1;
    }
    true
}

fn line_mentions_key(line: &Vec<char>) -> (b: bool)
    ensures
        b == mentions_key(line@),
{
    contains_chars(line, &chars_of("keyid")) || contains_chars(line, &chars_of("key ID"))
        || contains_chars(line, &chars_of("issuer"))
}

fn first_key_word(ws: &Vec<Vec<char>>) -> (r: Option<Vec<char>>)
    ensures
        match r {
            Some(w) => first_key_id_word(ws@.map_values(|x: Vec<char>| x@)) == Some(w@),
            None => first_key_id_word(ws@.map_values(|x: Vec<char>| x@)) is None,
        },
{
    let ghost all = ws@.map_values(|x: Vec<char>| x@);
    let mut i: usize = 0;
    assert(all.skip(0) =~= all);
    while i < ws.len()
        invariant
            i <= ws.len(),
            all == ws@.map_values(|x: Vec<char>| x@),
            first_key_id_word(all) == first_key_id_word(all.skip(i as int)),
        decreases ws.len() - i,
    {
        assert(all.skip(i as int)[0] == ws@[i as int]@);
        if key_id_word(&ws[i]) {
            return Some(ws[i].clone());
        }
        assert(all.skip(i as int).drop_first() =~= all.skip(i + 1));
        i = i + 1;
    }
    None
}

/// Reads the key ID from the output of `gpg --list-packets`: the first word of at least
/// 8 hexadecimal digits on the first line that mentions `keyid`, `key ID` or `issuer`
/// and has one; the fallback text when there is none.
pub fn key_id_from_listing(stdout: &str, stderr: &str) -> (r: String)
    ensures
        r@ == key_id_from_listing_spec(stdout@, stderr@),
{
    let mut combined = owned(stdout);
    combined.append("\n");
    combined.append(stderr);
    let lines = split_lines(&chars_of(combined.as_str()));
    let ghost all = lines@.map_values(|l: Vec<char>| l@);
    let mut i: usize = 0;
    assert(all.skip(0) =~= all);
    while i < lines.len()
        invariant
            i <= lines.len(),
            all == lines@.map_values(|l: Vec<char>| l@),
            all == lines_spec(stdout@ + "\n"@ + stderr@),
            first_key_id(all) == first_key_id(all.skip(i as int)),
        decreases lines.len() - i,
    {
        assert(all.skip(i as int)[0] == lines@[i as int]@);
        if line_mentions_key(&lines[i]) {
            let words = split_words(&lines[i]);
            match first_key_word(&words) {
                Some(w) => {
                    assert(words@.map_values(|x: Vec<char>| x@) == words_spec(all.skip(i as int)[0]));
                    assert(first_key_id(all.skip(i as int)) == Some(w@));
                    return string_of(&w);
                },
                None => {},
            }
        }
        assert(all.skip(i as int).drop_first() =~= all.skip(i + 1));
        i = i + 1;
    }
    owned("對稱加固 (S2K) 或 GPG 封包")
}

/// The key ledger file inside the application directory `app_config_dir`.
pub fn get_ledger_path(app_config_dir: &str) -> (r: String)
    ensures
        r@ == crate::path_join_spec(app_config_dir@, "key_ledger.json"@),
{
    crate::path_join(app_config_dir, "key_ledger.json")
}

/// The records of `rs` that do not archive the file `name`, in order.
pub open spec fn records_without(rs: Seq<KeyLedgerEntry>, name: Seq<char>) -> Seq<KeyLedgerEntry>
    decreases rs.len(),
{
    if rs.len() == 0 {
        rs
    } else if rs.last().file_name@ == name {
        records_without(rs.drop_last(), name)
    } else {
        records_without(rs.drop_last(), name).push(rs.last())
    }
}

/// Whether a record is still known: its file is among the remote files or exists locally.
pub open spec fn is_known(e: KeyLedgerEntry, remote: Seq<Seq<char>>, local_exists: bool) -> bool {
    remote.contains(e.file_name@) || local_exists
}

/// The records of `rs` that are still known, in order; `exists[i]` tells whether the file
/// of `rs[i]` exists locally.
pub open spec fn known_records(rs: Seq<KeyLedgerEntry>, remote: Seq<Seq<char>>, exists: Seq<bool>) -> Seq<
    KeyLedgerEntry,
>
    decreases rs.len(),
{
    if rs.len() == 0 {
        rs
    } else if is_known(rs.last(), remote, exists[rs.len() - 1]) {
        known_records(rs.drop_last(), remote, exists).push(rs.last())
    } else {
        known_records(rs.drop_last(), remote, exists)
    }
}

/// The index of the first record that archives the file `name`.
pub open spec fn first_record_of(rs: Seq<KeyLedgerEntry>, name: Seq<char>) -> Option<int>
    decreases rs.len(),
{
    if rs.len() == 0 {
        None
    } else if rs[0].file_name@ == name {
        Some(0)
    } else {
        match first_record_of(rs.drop_first(), name) {
            Some(i) => Some(i + 1),
            None => None,
        }
    }
}

/// `a` and `b` agree on everything but the file name.
pub open spec fn same_but_name(a: KeyLedgerEntry, b: KeyLedgerEntry) -> bool {
    &&& a.id == b.id
    &&& a.target_path == b.target_path
    &&& a.key_id == b.key_id
    &&& a.cipher_mode == b.cipher_mode
    &&& a.iterations == b.iterations
    &&& a.layer == b.layer
    &&& a.timestamp == b.timestamp
    &&& a.file_size_bytes == b.file_size_bytes
    &&& a.sha256 == b.sha256
    &&& a.notes == b.notes
}

impl KeyLedger {
    /// The position of the first record of the file `name`, if any.
    pub fn find_record(&self, name: &str) -> (r: Option<usize>)
        ensures
            match r {
                Some(i) => first_record_of(self.records@, name@) == Some(i as int),
                None => first_record_of(self.records@, name@) is None,
            },
    {
        let mut i: usize = 0;
        assert(self.records@.skip(0) =~= self.records@);
        while i < self.records.len()
            invariant
                i <= self.records@.len(),
                forall|j: int| 0 <= j < i ==> self.records@[j].file_name@ != name@,
            decreases self.records.len() - i,
        {
            if crate::text::str_eq(self.records[i].file_name.as_str(), name) {
                proof {
                    lemma_first_record_of(self.records@, name@, i as int);
                }
                return Some(i);
            }
            i = i + 1;
        }
        proof {
            lemma_first_record_of(self.records@, name@, self.records@.len() as int);
        }
        None
    }

    /// Drops every record of the file `name`; says how many were dropped.
    pub fn remove_file(&mut self, name: &str) -> (removed: usize)
        ensures
            final(self).records@ == records_without(old(self).records@, name@),
            removed == old(self).records@.len() - final(self).records@.len(),
            final(self).system == old(self).system,
            final(self).version == old(self).version,
            final(self).updated_at == old(self).updated_at,
    {
        let mut rest: Vec<KeyLedgerEntry> = Vec::new();
        std::mem::swap(&mut rest, &mut self.records);
        let ghost all = rest@;
        let n = rest.len();
        let mut kept: Vec<KeyLedgerEntry> = Vec::new();
        let mut i: usize = 0;
        assert(all.take(0) =~= Seq::<KeyLedgerEntry>::empty());
        while i < n
            invariant
                n == all.len(),
                i <= n,
                rest@ == all.skip(i as int),
                kept@ == records_without(all.take(i as int), name@),
                kept@.len() <= i,
            decreases n - i,
        {
            assert(all.take(i + 1).drop_last() =~= all.take(i as int));
            let e = rest.remove(0);
            assert(all.skip(i as int).drop_first() =~= all.skip(i + 1));
            if !crate::text::str_eq(e.file_name.as_str(), name) {
                kept.push(e);
            }
            i = i + 1;
        }
        assert(all.take(n as int) =~= all);
        let removed = n - kept.len();
        self.records = kept;
        removed
    }

    /// Gives every record of the file `old_name` the file name `new_name`.
    pub fn rename_file(&mut self, old_name: &str, new_name: &str)
        ensures
            final(self).records@.len() == old(self).records@.len(),
            forall|j: int|
                0 <= j < old(self).records@.len() ==> {
                    let a = #[trigger] old(self).records@[j];
                    let b = final(self).records@[j];
                    &&& same_but_name(a, b)
                    &&& b.file_name@ == if a.file_name@ == old_name@ {
                        new_name@
                    } else {
                        a.file_name@
                    }
                },
            final(self).system == old(self).system,
            final(self).version == old(self).version,
            final(self).updated_at == old(self).updated_at,
    {
        let ghost before = self.records@;
        let mut i: usize = 0;
        while i < self.records.len()
            invariant
                i <= self.records@.len(),
                self.records@.len() == before.len(),
                self.system == old(self).system,
                self.version == old(self).version,
                self.updated_at == old(self).updated_at,
                before == old(self).records@,
                forall|j: int|
                    0 <= j < i ==> {
                        let a = #[trigger] before[j];
                        let b = self.records@[j];
                        &&& same_but_name(a, b)
                        &&& b.file_name@ == if a.file_name@ == old_name@ {
                            new_name@
                        } else {
                            a.file_name@
                        }
                    },
                forall|j: int| i <= j < before.len() ==> #[trigger] self.records@[j] == before[j],
            decreases self.records.len() - i,
        {
            if crate::text::str_eq(self.records[i].file_name.as_str(), old_name) {
                let mut e = self.records.remove(i);
                e.file_name = owned(new_name);
                self.records.insert(i, e);
            }
            i = i + 1;
        }
    }

    /// Records `entry` as the one record of its file: earlier records of that file are
    /// dropped and the entry is appended.
    pub fn record(&mut self, entry: KeyLedgerEntry)
        ensures
            final(self).records@ == records_without(old(self).records@, entry.file_name@).push(
                entry,
            ),
            final(self).system == old(self).system,
            final(self).version == old(self).version,
            final(self).updated_at == old(self).updated_at,
    {
        self.remove_file(entry.file_name.as_str());
        self.records.push(entry);
    }

    /// Keeps only the records that are still known; `local_exists[i]` tells whether the
    /// file of record `i` exists locally. Says whether any record was dropped.
    pub fn retain_known(&mut self, remote: &Vec<String>, local_exists: &Vec<bool>) -> (changed: bool)
        requires
            local_exists@.len() == old(self).records@.len(),
        ensures
            final(self).records@ == known_records(old(self).records@, views(remote@), local_exists@),
            changed == (final(self).records@.len() != old(self).records@.len()),
            final(self).system == old(self).system,
            final(self).version == old(self).version,
            final(self).updated_at == old(self).updated_at,
    {
        let mut rest: Vec<KeyLedgerEntry> = Vec::new();
        std::mem::swap(&mut rest, &mut self.records);
        let ghost all = rest@;
        let ghost ex = local_exists@;
        let ghost rv = views(remote@);
        let n = rest.len();
        let mut kept: Vec<KeyLedgerEntry> = Vec::new();
        let mut i: usize = 0;
        assert(all.take(0) =~= Seq::<KeyLedgerEntry>::empty());
        while i < n
            invariant
                n == all.len(),
                n == ex.len(),
                ex == local_exists@,
                rv == views(remote@),
                i <= n,
                rest@ == all.skip(i as int),
                kept@ == known_records(all.take(i as int), rv, ex),
                kept@.len() <= i,
            decreases n - i,
        {
            assert(all.take(i + 1).drop_last() =~= all.take(i as int));
            assert(all.take(i + 1).last() == all[i as int]);
            let e = rest.remove(0);
            assert(all.skip(i as int).drop_first() =~= all.skip(i + 1));
            let keep = local_exists[i] || crate::commands::contains_name(remote, e.file_name.as_str());
            if keep {
                kept.push(e);
            }
            i = i + 1;
        }
        assert(all.take(n as int) =~= all);
        let changed = kept.len() != n;
        self.records = kept;
        changed
    }
}

proof fn lemma_first_record_of(rs: Seq<KeyLedgerEntry>, name: Seq<char>, i: int)
    requires
        0 <= i <= rs.len(),
        forall|j: int| 0 <= j < i ==> rs[j].file_name@ != name,
    ensures
        i < rs.len() && rs[i].file_name@ == name ==> first_record_of(rs, name) == Some(i),
        i == rs.len() ==> first_record_of(rs, name) is None,
    decreases i,
{
    if i > 0 {
        lemma_first_record_of(rs.drop_first(), name, i - 1);
    } else if rs.len() > 0 {
    }
}

/// Whether a record already names a usable key: any record of a plain file does; a record
/// of a `.gpg` file does when its key ID is neither empty, `-`, nor marked unknown.
pub open spec fn has_valid_key_spec(e: KeyLedgerEntry, is_gpg: bool) -> bool {
    if is_gpg {
        e.key_id@.len() > 0 && e.key_id@ != "-"@ && !contains_seq(e.key_id@, "未知"@)
    } else {
        true
    }
}

/// Tells whether `e` already names a usable key for its file.
pub fn has_valid_key(e: &KeyLedgerEntry, is_gpg: bool) -> (b: bool)
    ensures
        b == has_valid_key_spec(*e, is_gpg),
{
    if is_gpg {
        let k = chars_of(e.key_id.as_str());
        k.len() > 0 && !crate::text::str_eq(e.key_id.as_str(), "-") && !contains_chars(
            &k,
            &chars_of("未知"),
        )
    } else {
        true
    }
}

/// Whether a key ID read from a packet listing is worth recording: not empty, and not
/// the fallback text (which mentions a symmetric cipher or a packet).
pub open spec fn usable_key_id_spec(extracted: Seq<char>) -> bool {
    !contains_seq(extracted, "對稱"@) && !contains_seq(extracted, "封包"@) && extracted.len() > 0
}

/// Tells whether a key ID read from a packet listing is worth recording.
pub fn usable_key_id(extracted: &str) -> (b: bool)
    ensures
        b == usable_key_id_spec(extracted@),
{
    let v = chars_of(extracted);
    !contains_chars(&v, &chars_of("對稱")) && !contains_chars(&v, &chars_of("封包")) && v.len() > 0
}

/// Dropping the records of a file leaves none of them and keeps every other record; it
/// adds nothing.
pub proof fn lemma_records_without(rs: Seq<KeyLedgerEntry>, name: Seq<char>)
    ensures
        forall|j: int|
            0 <= j < records_without(rs, name).len() ==> (#[trigger] records_without(rs, name)[j]).file_name@
                != name,
        forall|e: KeyLedgerEntry|
            rs.contains(e) && e.file_name@ != name ==> #[trigger] records_without(rs, name).contains(e),
        forall|e: KeyLedgerEntry| #[trigger] records_without(rs, name).contains(e) ==> rs.contains(e),
    decreases rs.len(),
{
    if rs.len() > 0 {
        let d = rs.drop_last();
        lemma_records_without(d, name);
        let rd = records_without(d, name);
        assert(rs =~= d.push(rs.last()));
        assert forall|e: KeyLedgerEntry| rs.contains(e) implies (e == rs.last() || d.contains(e)) by {
            let k = choose|k: int| 0 <= k < rs.len() && rs[k] == e;
            if k < d.len() {
                assert(d[k] == e);
            }
        }
        assert forall|e: KeyLedgerEntry| d.contains(e) implies rs.contains(e) by {
            let k = choose|k: int| 0 <= k < d.len() && d[k] == e;
            assert(rs[k] == e);
        }
        if rs.last().file_name@ != name {
            let r = rd.push(rs.last());
            assert(r[rd.len() as int] == rs.last());
            assert forall|e: KeyLedgerEntry| rd.contains(e) implies r.contains(e) by {
                let k = choose|k: int| 0 <= k < rd.len() && rd[k] == e;
                assert(r[k] == e);
            }
            assert forall|e: KeyLedgerEntry| r.contains(e) implies (e == rs.last() || rd.contains(e)) by {
                let k = choose|k: int| 0 <= k < r.len() && r[k] == e;
                if k < rd.len() {
                    assert(rd[k] == e);
                }
            }
            assert forall|j: int| 0 <= j < r.len() implies (#[trigger] r[j]).file_name@ != name by {
                if j < rd.len() {
                    assert(r[j] == rd[j]);
                }
            }
        }
    }
}

/// After an entry is recorded, the ledger holds exactly one record of its file: the
/// entry, last.
pub proof fn lemma_record_is_single(rs: Seq<KeyLedgerEntry>, entry: KeyLedgerEntry)
    ensures
        ({
            let r = records_without(rs, entry.file_name@).push(entry);
            &&& r.last() == entry
            &&& forall|j: int| 0 <= j < r.len() - 1 ==> (#[trigger] r[j]).file_name@ != entry.file_name@
        }),
{
    lemma_records_without(rs, entry.file_name@);
    let w = records_without(rs, entry.file_name@);
    assert forall|j: int| 0 <= j < w.push(entry).len() - 1 implies (#[trigger] w.push(entry)[j]).file_name@
        != entry.file_name@ by {
        assert(w.push(entry)[j] == w[j]);
    }
}

/// Keeping the known records keeps exactly the records that are known, each from its
/// own position.
pub proof fn lemma_known_records(rs: Seq<KeyLedgerEntry>, remote: Seq<Seq<char>>, exists: Seq<bool>)
    requires
        exists.len() == rs.len(),
    ensures
        forall|i: int|
            0 <= i < rs.len() && is_known(rs[i], remote, exists[i]) ==> #[trigger] known_records(
                rs,
                remote,
                exists,
            ).contains(rs[i]),
        forall|e: KeyLedgerEntry|
            #[trigger] known_records(rs, remote, exists).contains(e) ==> exists|i: int|
                0 <= i < rs.len() && rs[i] == e && is_known(rs[i], remote, exists[i]),
    decreases rs.len(),
{
    if rs.len() > 0 {
        let n = rs.len() - 1;
        let d = rs.drop_last();
        let ed = exists.drop_last();
        lemma_known_records(d, remote, ed);
        assert(known_records(d, remote, exists) == known_records(d, remote, ed)) by {
            lemma_known_records_prefix(d, remote, exists, ed);
        }
        let kd = known_records(d, remote, ed);
        let k = known_records(rs, remote, exists);
        assert forall|i: int| 0 <= i < rs.len() && is_known(rs[i], remote, exists[i]) implies #[trigger] k.contains(
            rs[i],
        ) by {
            if i < n {
                assert(d[i] == rs[i]);
                assert(ed[i] == exists[i]);
                assert(kd.contains(d[i]));
                let m = choose|m: int| 0 <= m < kd.len() && kd[m] == d[i];
                if is_known(rs.last(), remote, exists[n]) {
                    assert(kd.push(rs.last())[m] == rs[i]);
                }
            } else {
                assert(kd.push(rs.last())[kd.len() as int] == rs[i]);
            }
        }
        assert forall|e: KeyLedgerEntry| #[trigger] k.contains(e) implies exists|i: int|
            0 <= i < rs.len() && rs[i] == e && is_known(rs[i], remote, exists[i]) by {
            let m = choose|m: int| 0 <= m < k.len() && k[m] == e;
            if m < kd.len() {
                assert(kd[m] == e);
                assert(kd.contains(e));
                let i = choose|i: int| 0 <= i < d.len() && d[i] == e && is_known(d[i], remote, ed[i]);
                assert(rs[i] == e && exists[i] == ed[i]);
            } else {
                assert(rs[n] == e);
            }
        }
    }
}

proof fn lemma_known_records_prefix(
    d: Seq<KeyLedgerEntry>,
    remote: Seq<Seq<char>>,
    e1: Seq<bool>,
    e2: Seq<bool>,
)
    requires
        e1.len() >= d.len(),
        e2.len() >= d.len(),
        forall|i: int| 0 <= i < d.len() ==> e1[i] == e2[i],
    ensures
        known_records(d, remote, e1) == known_records(d, remote, e2),
    decreases d.len(),
{
    if d.len() > 0 {
        lemma_known_records_prefix(d.drop_last(), remote, e1, e2);
    }
}

} // verus!
