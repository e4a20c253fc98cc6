use vstd::prelude::*;

use crate::args::{arg_present, has_arg_from, positional_args, positional_spec, tail_from};
use crate::text::{
    join_from, join_spec, owned, parse_usize, parse_usize_spec, views,
    chars_eq, chars_lt, chars_of, is_ws, lemma_seq_lt_irreflexive, lemma_seq_lt_total,
    lemma_seq_lt_transitive, seq_lt,
};


verus! {

/// What `base32::decode` returns for the RFC 4648 alphabet with the given padding flag.
pub uninterp spec fn base32_decode_spec(padding: bool, data: Seq<char>) -> Option<Seq<u8>>;

/// The HMAC-SHA1 tag of `msg` under `key`.
pub uninterp spec fn hmac_sha1_spec(key: Seq<u8>, msg: Seq<u8>) -> Seq<u8>;

/// What `str::to_uppercase` returns for `s`.
pub uninterp spec fn to_uppercase_spec(s: Seq<char>) -> Seq<char>;

/// A character that RFC 4648 Base32 decoding takes: a letter of either case (it is
/// upper-cased first), a digit from 2 to 7, or the padding sign `=`.
pub open spec fn base32_symbol(c: char) -> bool {
    ('A' <= c && c <= 'Z') || ('a' <= c && c <= 'z') || ('2' <= c && c <= '7') || c == '='
}

/// Every character of `s` is one that Base32 decoding takes.
pub open spec fn all_base32_symbols(s: Seq<char>) -> bool {
    forall|i: int| 0 <= i < s.len() ==> base32_symbol(#[trigger] s[i])
}

/// Calls `base32::decode` with `Alphabet::RFC4648 { padding }`.
/// Claims: the result is the named function of the padding flag and the input, and it
/// is `None` exactly when some character is not a Base32 symbol. In the crate's source,
/// `decode` returns `None` for input that is not ASCII and for a byte whose upper-case
/// form has no entry in `RFC4648_INV_ALPHABET` (the entries are `2`-`7`, `=` and
/// `A`-`Z`), and `Some` otherwise; which bytes come out is left to the name.
#[verifier::external_body]
fn base32_decode(padding: bool, data: &str) -> (r: Option<Vec<u8>>)
    ensures
        match r {
            Some(v) => base32_decode_spec(padding, data@) == Some(v@),
            None => base32_decode_spec(padding, data@) is None,
        },
        r is None <==> !all_base32_symbols(data@),
{
    base32::decode(base32::Alphabet::RFC4648 { padding }, data)
}

/// Computes HMAC-SHA1 with `hmac::Hmac<sha1::Sha1>`: `new_from_slice`, `update`, `finalize`.
/// Claims: key setup succeeds for every key length (the crate's `HmacCore::new_from_slice`
/// returns `Ok` unconditionally), and the tag is the named function of key and message,
/// 20 bytes long (SHA-1's output size).
#[verifier::external_body]
fn hmac_sha1(key: &[u8], msg: &[u8]) -> (r: Result<Vec<u8>, ()>)
    ensures
        r is Ok,
        r matches Ok(tag) ==> tag@ == hmac_sha1_spec(key@, msg@) && tag@.len() == 20,
{
    match <hmac::Hmac<sha1::Sha1> as hmac::Mac>::new_from_slice(key) {
        Ok(mut mac) => {
            hmac::Mac::update(&mut mac, msg);
            Ok(hmac::Mac::finalize(mac).into_bytes().to_vec())
        },
        Err(_) => Err(()),
    }
}

/// The standard library's wall-clock time.
#[verifier::external_type_specification]
#[verifier::external_body]
pub struct ExSystemTime(std::time::SystemTime);

/// `SystemTime::now` reads the system clock; nothing is claimed of the time it gives.
pub assume_specification[ std::time::SystemTime::now ]() -> std::time::SystemTime;

/// Calls `SystemTime::duration_since(UNIX_EPOCH)` and takes the whole seconds. The clock is
/// read through std, because chrono's `Utc::now` (and its `From<SystemTime>`) panics on some
/// clock readings, where `duration_since` returns an error.
/// Nothing is claimed of the value: it depends on the clock. `None` stands for a time
/// before the epoch, for which `duration_since` gives its error instead of panicking.
#[verifier::external_body]
fn seconds_since_epoch(t: &std::time::SystemTime) -> (r: Option<u64>) {
    match t.duration_since(std::time::UNIX_EPOCH) {
        Ok(d) => Some(d.as_secs()),
        Err(_) => None,
    }
}

/// `str::to_uppercase` as far as it is stated: on ASCII text it upper-cases the ASCII
/// letters and keeps every other character; on other text it is the named function.
pub open spec fn uppercase_spec(s: Seq<char>) -> Seq<char> {
    if vstd::utf8::is_ascii_chars(s) {
        crate::text::ascii_upper(s)
    } else {
        to_uppercase_spec(s)
    }
}

/// Calls `str::to_uppercase`.
/// Claims: ASCII text comes back with its letters upper-cased (Unicode maps `a`-`z` to
/// `A`-`Z` and every other ASCII character to itself); other text gives the named result.
#[verifier::external_body]
fn uppercase(s: &str) -> (r: String)
    ensures
        vstd::utf8::is_ascii_chars(s@) ==> r@ == crate::text::ascii_upper(s@),
        !vstd::utf8::is_ascii_chars(s@) ==> r@ == to_uppercase_spec(s@),
{
    s.to_uppercase()
}

/// The length of one TOTP time step, in seconds.
pub const TOTP_STEP: u64 = 30;

/// Byte `i` (0 = most significant) of the big-endian encoding of `counter`.
pub open spec fn be_byte(counter: u64, i: int) -> u8 {
    ((counter as int / vstd::arithmetic::power2::pow2((8 * (7 - i)) as nat) as int) % 256) as u8
}

/// The 8-byte big-endian encoding of a counter, the HOTP message.
pub open spec fn counter_message(counter: u64) -> Seq<u8> {
    Seq::new(8, |i: int| be_byte(counter, i))
}

/// The 31-bit value that dynamic truncation (RFC 4226, 5.3) extracts from a 20-byte tag.
pub open spec fn truncated_value(tag: Seq<u8>) -> int {
    let offset = (tag[19] % 16) as int;
    (tag[offset] % 128) as int * 0x1000000 + tag[offset + 1] as int * 0x10000
        + tag[offset + 2] as int * 0x100 + tag[offset + 3] as int
}

/// The ASCII decimal digit of `d` (`0 <= d < 10`).
pub open spec fn digit_char(d: int) -> char {
    (48 + d) as char
}

/// The six-digit, zero-padded decimal form of `n` (`n < 1000000`), most significant first.
pub open spec fn six_digit_code(n: nat) -> Seq<char> {
    seq![
        digit_char(((n / 100000) % 10) as int),
        digit_char(((n / 10000) % 10) as int),
        digit_char(((n / 1000) % 10) as int),
        digit_char(((n / 100) % 10) as int),
        digit_char(((n / 10) % 10) as int),
        digit_char((n % 10) as int),
    ]
}

/// The six-digit code and the seconds left in the current step, for `key` at Unix time `now`.
#[verifier::opaque]
pub open spec fn totp_spec(key: Seq<u8>, now: u64) -> (Seq<char>, u64) {
    let tag = hmac_sha1_spec(key, counter_message(now / 30));
    (six_digit_code((truncated_value(tag) % 1000000) as nat), (30 - now % 30) as u64)
}

proof fn lemma_be_byte(counter: u64, i: int)
    requires
        0 <= i < 8,
    ensures
        (counter >> ((8 * (7 - i)) as u64)) as u8 == be_byte(counter, i),
{
    let s: u64 = (8 * (7 - i)) as u64;
    vstd::bits::lemma_u64_shr_is_div(counter, s);
    vstd::arithmetic::power2::lemma_pow2_pos(s as nat);
    let q: u64 = counter >> s;
    assert(q as u8 == (q % 256) as u8) by (bit_vector);
}

/// The HOTP message for a counter: its 8 bytes, big-endian.
fn counter_bytes(counter: u64) -> (msg: Vec<u8>)
    ensures
        msg@ == counter_message(counter),
{
    let mut msg: Vec<u8> = Vec::new();
    let mut i: usize = 0;
    while i < 8
        invariant
            i <= 8,
            msg@.len() == i,
            forall|j: int| 0 <= j < i ==> msg@[j] == be_byte(counter, j),
        decreases 8 - i,
    {
        let shift: u64 = (8 * (7 - i)) as u64;
        proof {
            lemma_be_byte(counter, i as int);
        }
        msg.push((counter >> shift) as u8);
        i = i + 1;
    }
    assert(msg@ =~= counter_message(counter));
    msg
}

/// Dynamic truncation of a 20-byte tag, reduced to six decimal digits.
fn truncate_tag(tag: &Vec<u8>) -> (otp: u32)
    requires
        tag@.len() == 20,
    ensures
        otp as int == truncated_value(tag@) % 1000000,
{
    let last: u8 = tag[tag.len() - 1];
    assert(last & 0x0f == last % 16) by (bit_vector);
    let offset: usize = (last & 0x0f) as usize;
    let b0: u8 = tag[offset];
    let b1: u8 = tag[offset + 1];
    let b2: u8 = tag[offset + 2];
    let b3: u8 = tag[offset + 3];
    let binary: u32 = (((b0 & 0x7f) as u32) << 24) | ((b1 as u32) << 16) | ((b2 as u32) << 8)
        | (b3 as u32);
    assert(b0 & 0x7f == b0 % 128) by (bit_vector);
    assert(binary == (b0 % 128) as u32 * 0x1000000u32 + b1 as u32 * 0x10000u32 + b2 as u32
        * 0x100u32 + b3 as u32) by (bit_vector)
        requires
            binary == (((b0 & 0x7f) as u32) << 24) | ((b1 as u32) << 16) | ((b2 as u32) << 8)
                | (b3 as u32),
    ;
    binary % 1_000_000
}

/// The ASCII digit of `d` (`d < 10`).
fn digit(d: u32) -> (c: char)
    requires
        d < 10,
    ensures
        c == digit_char(d as int),
{
    let b: u8 = 48u8 + d as u8;
    b as char
}

/// The zero-padded six-digit decimal form of `n` (`n < 1000000`), as `format!("{:06}", n)`.
fn six_digits(n: u32) -> (s: String)
    requires
        n < 1000000,
    ensures
        s@ == six_digit_code(n as nat),
{
    let mut s = String::new();
    s.push(digit((n / 100000) % 10));
    s.push(digit((n / 10000) % 10));
    s.push(digit((n / 1000) % 10));
    s.push(digit((n / 100) % 10));
    s.push(digit((n / 10) % 10));
    s.push(digit(n % 10));
    assert(s@ =~= six_digit_code(n as nat));
    s
}

/// The message of the error that a secret which is not valid Base32 gives.
pub open spec fn base32_error_message() -> Seq<char> {
    "Base32 解碼失敗：密鑰格式不正確"@
}

/// The message of the error that a clock reading before 1970 gives.
pub open spec fn clock_error_message() -> Seq<char> {
    "系統時鐘早於 1970 年，無法計算驗證碼"@
}

/// The message of the error that a failed HMAC key setup gives.
pub open spec fn hmac_error_message() -> Seq<char> {
    "HMAC 初始化失敗"@
}

/// `s` without its White_Space characters, the rest in order.
pub open spec fn strip_ws(s: Seq<char>) -> Seq<char>
    decreases s.len(),
{
    if s.len() == 0 {
        s
    } else if is_ws(s.last()) {
        strip_ws(s.drop_last())
    } else {
        strip_ws(s.drop_last()).push(s.last())
    }
}

/// The secret as it is decoded: White_Space removed, then upper-cased.
pub open spec fn clean_secret(secret: Seq<char>) -> Seq<char> {
    uppercase_spec(strip_ws(secret))
}

/// The key that a cleaned secret decodes to: the unpadded RFC 4648 reading, else the
/// padded one.
pub open spec fn decoded_key(clean: Seq<char>) -> Option<Seq<u8>> {
    match base32_decode_spec(false, clean) {
        Some(k) => Some(k),
        None => base32_decode_spec(true, clean),
    }
}

/// Removes the White_Space characters of `s`.
pub fn remove_whitespace(s: &str) -> (r: String)
    ensures
        r@ == strip_ws(s@),
{
    let v = chars_of(s);
    let mut r = String::new();
    let mut i: usize = 0;
    while i < v.len()
        invariant
            i <= v.len(),
            v@ == s@,
            r@ == strip_ws(v@.take(i as int)),
        decreases v.len() - i,
    {
        assert(v@.take(i + 1).drop_last() =~= v@.take(i as int));
        if !v[i].is_whitespace() {
            r.push(v[i]);
        }
        i = i + 1;
    }
    assert(v@.take(v.len() as int) =~= v@);
    r
}

/// The TOTP code (RFC 6238: SHA-1, 30-second steps, six digits) of `key` at Unix time
/// `now`, with the seconds left before the code changes.
pub fn totp_at(key: &[u8], now: u64) -> (r: Result<(String, u64), String>)
    ensures
        r matches Ok((code, remaining)) && (code@, remaining) == totp_spec(key@, now),
{
    reveal(totp_spec);
    let counter: u64 = now / TOTP_STEP;
    let remaining: u64 = TOTP_STEP - (now % TOTP_STEP);
    let msg = counter_bytes(counter);
    match hmac_sha1(key, msg.as_slice()) {
        Ok(tag) => {
            let otp: u32 = truncate_tag(&tag);
            Ok((six_digits(otp), remaining))
        },
        Err(_) => Err(String::from_str("HMAC 初始化失敗")),
    }
}

/// Generates the current TOTP code of a Base32 secret, with the seconds it stays valid.
///
/// White_Space in the secret is ignored and letters may be of either case. A secret that
/// does not decode, which is a secret with a character other than a letter, a digit from
/// 2 to 7 or `=`, gives the Base32 error; otherwise the code is that of the decoded key
/// at the clock's current second, or the clock error when the clock reads a time before
/// 1970.
pub fn generate_totp(secret_base32: &str) -> (r: Result<(String, u64), String>)
    ensures
        decoded_key(clean_secret(secret_base32@)) is None <==> !all_base32_symbols(
            clean_secret(secret_base32@),
        ),
        decoded_key(clean_secret(secret_base32@)) is None ==> (r matches Err(e) && e@
            == base32_error_message()),
        decoded_key(clean_secret(secret_base32@)) is Some ==> match r {
            Ok((code, remaining)) => exists|now: u64|
                (code@, remaining) == totp_spec(decoded_key(clean_secret(secret_base32@))->0, now),
            Err(e) => e@ == clock_error_message(),
        },
{
    let stripped = remove_whitespace(secret_base32);
    let clean = uppercase(stripped.as_str());
    let decoded = match base32_decode(false, clean.as_str()) {
        Some(k) => k,
        None => match base32_decode(true, clean.as_str()) {
            Some(k) => k,
            None => {
                return Err(String::from_str("Base32 解碼失敗：密鑰格式不正確"));
            },
        },
    };
    let now: u64 = match seconds_since_epoch(&std::time::SystemTime::now()) {
        Some(t) => t,
        None => {
            return Err(String::from_str("系統時鐘早於 1970 年，無法計算驗證碼"));
        },
    };
    let r = totp_at(decoded.as_slice(), now);
    assert(decoded_key(clean_secret(secret_base32@)) == Some(decoded@));
    proof {
        if r is Ok {
            let (c, rem) = r->Ok_0;
            assert(decoded_key(clean_secret(secret_base32@))->0 == decoded@);
            assert((c@, rem) == totp_spec(decoded_key(clean_secret(secret_base32@))->0, now));
        }
    }
    r
}

/// The TOTP secrets by label, kept in label order (the order in which the labels are listed
/// and numbered from 1).
pub struct TotpStore {
    entries: Vec<(String, String)>,
}

impl TotpStore {
    /// The number of stored labels.
    pub closed spec fn size(self) -> nat {
        self.entries@.len()
    }

    /// The label of entry `i`.
    pub closed spec fn label_at(self, i: int) -> Seq<char> {
        self.entries@[i].0@
    }

    /// The secret of entry `i`.
    pub closed spec fn secret_at(self, i: int) -> Seq<char> {
        self.entries@[i].1@
    }

    /// The labels, in increasing order.
    pub closed spec fn labels(self) -> Seq<Seq<char>> {
        Seq::new(self.size(), |i: int| self.label_at(i))
    }

    /// Labels strictly increase, so no label occurs twice.
    pub closed spec fn wf(self) -> bool {
        forall|i: int, j: int|
            0 <= i < j < self.size() ==> seq_lt(#[trigger] self.label_at(i), #[trigger] self.label_at(j))
    }

    /// Some entry has label `k`.
    pub closed spec fn has_label(self, k: Seq<char>) -> bool {
        exists|i: int| 0 <= i < self.size() && #[trigger] self.label_at(i) == k
    }

    /// The secrets as a map from label to secret.
    pub closed spec fn view(self) -> Map<Seq<char>, Seq<char>> {
        Map::new(
            |k: Seq<char>| self.has_label(k),
            |k: Seq<char>|
                self.secret_at(choose|i: int| 0 <= i < self.size() && #[trigger] self.label_at(i) == k),
        )
    }

    proof fn lemma_unique(self, i: int, j: int)
        requires
            self.wf(),
            0 <= i < self.size(),
            0 <= j < self.size(),
            self.label_at(i) == self.label_at(j),
        ensures
            i == j,
    {
        lemma_seq_lt_irreflexive(self.label_at(i));
        if i < j {
            assert(seq_lt(self.label_at(i), self.label_at(j)));
        } else if j < i {
            assert(seq_lt(self.label_at(j), self.label_at(i)));
        }
    }

    proof fn lemma_view_at(self, i: int)
        requires
            self.wf(),
            0 <= i < self.size(),
        ensures
            self.view().dom().contains(self.label_at(i)),
            self.view()[self.label_at(i)] == self.secret_at(i),
    {
        let k = self.label_at(i);
        assert(self.has_label(k));
        let c = choose|c: int| 0 <= c < self.size() && #[trigger] self.label_at(c) == k;
        self.lemma_unique(c, i);
    }

    /// An empty store.
    pub fn new() -> (s: Self)
        ensures
            s.wf(),
            s.view() == Map::<Seq<char>, Seq<char>>::empty(),
            s.labels().len() == 0,
    {
        let s = TotpStore { entries: Vec::new() };
        assert(s.view() =~= Map::<Seq<char>, Seq<char>>::empty());
        s
    }

    /// The number of stored labels.
    pub fn len(&self) -> (n: usize)
        ensures
            n == self.labels().len(),
    {
        self.entries.len()
    }

    /// The index of the entry with label `label`, if any.
    fn find(&self, label: &Vec<char>) -> (r: Option<usize>)
        requires
            self.wf(),
        ensures
            match r {
                Some(i) => i < self.size() && self.label_at(i as int) == label@,
                None => !self.has_label(label@),
            },
    {
        let mut i: usize = 0;
        while i < self.entries.len()
            invariant
                i <= self.entries@.len(),
                forall|j: int| 0 <= j < i ==> #[trigger] self.label_at(j) != label@,
            decreases self.entries.len() - i,
        {
            let l = chars_of(self.entries[i].0.as_str());
            if chars_eq(&l, label) {
                return Some(i);
            }
            i = i + 1;
        }
        None
    }

    /// The secret stored under `label`.
    pub fn get(&self, label: &str) -> (r: Option<String>)
        requires
            self.wf(),
        ensures
            match r {
                Some(s) => self.view().dom().contains(label@) && self.view()[label@] == s@,
                None => !self.view().dom().contains(label@),
            },
    {
        let key = chars_of(label);
        match self.find(&key) {
            Some(i) => {
                proof {
                    self.lemma_view_at(i as int);
                }
                Some(self.entries[i].1.clone())
            },
            None => None,
        }
    }

    /// Stores `secret` under `label`, replacing what was stored there.
    pub fn insert(&mut self, label: String, secret: String)
        requires
            old(self).wf(),
        ensures
            final(self).wf(),
            final(self).view() == old(self).view().insert(label@, secret@),
    {
        let ghost pre = *self;
        let key = chars_of(label.as_str());
        let mut p: usize = 0;
        while p < self.entries.len() && chars_lt(&chars_of(self.entries[p].0.as_str()), &key)
            invariant
                *self == pre,
                p <= self.entries@.len(),
                forall|j: int| 0 <= j < p ==> seq_lt(#[trigger] pre.label_at(j), key@),
            decreases self.entries.len() - p,
        {
            p = p + 1;
        }
        let replace = p < self.entries.len() && chars_eq(&chars_of(self.entries[p].0.as_str()), &key);
        if replace {
            let ghost sv = secret@;
            self.entries.set(p, (label, secret));
            proof {
                assert forall|i: int| 0 <= i < self.size() implies #[trigger] self.label_at(i)
                    == pre.label_at(i) by {}
                assert forall|i: int| 0 <= i < self.size() && i != p implies #[trigger] self.secret_at(i)
                    == pre.secret_at(i) by {}
                assert(self.secret_at(p as int) == sv);
                assert(self.wf());
                assert forall|k: Seq<char>|
                    #![trigger self.view().dom().contains(k)]
                    self.view().dom().contains(k) == pre.view().insert(key@, secret@).dom().contains(k)
                        && (self.view().dom().contains(k) ==> self.view()[k] == pre.view().insert(key@, secret@)[k]) by {
                    if self.has_label(k) {
                        let i = choose|i: int| 0 <= i < self.size() && #[trigger] self.label_at(i) == k;
                        self.lemma_view_at(i);
                        pre.lemma_view_at(i);
                        if k == key@ {
                            self.lemma_unique(i, p as int);
                        }
                    }
                    if pre.has_label(k) {
                        let i = choose|i: int| 0 <= i < pre.size() && #[trigger] pre.label_at(i) == k;
                        assert(self.label_at(i) == k);
                    }
                    if k == key@ {
                        assert(self.label_at(p as int) == k);
                    }
                }
                assert(self.view() =~= pre.view().insert(key@, secret@));
            }
        } else {
            proof {
                if p < pre.size() {
                    assert(pre.label_at(p as int) != key@);
                    lemma_seq_lt_total(pre.label_at(p as int), key@);
                }
            }
            self.entries.insert(p, (label, secret));
            proof {
                assert forall|i: int| 0 <= i < p implies #[trigger] self.label_at(i) == pre.label_at(i) by {}
                assert forall|i: int| p < i < self.size() implies #[trigger] self.label_at(i)
                    == pre.label_at(i - 1) by {}
                assert(self.label_at(p as int) == key@);
                assert forall|i: int, j: int| 0 <= i < j < self.size() implies seq_lt(
                    #[trigger] self.label_at(i),
                    #[trigger] self.label_at(j),
                ) by {
                    if j < p {
                        assert(seq_lt(pre.label_at(i), pre.label_at(j)));
                    } else if j == p {
                    } else if i < p {
                        assert(seq_lt(pre.label_at(i), key@));
                        if j - 1 > p {
                            assert(seq_lt(pre.label_at(p as int), pre.label_at(j - 1)));
                            lemma_seq_lt_transitive(key@, pre.label_at(p as int), pre.label_at(j - 1));
                        }
                        lemma_seq_lt_transitive(pre.label_at(i), key@, pre.label_at(j - 1));
                    } else if i == p {
                        if j - 1 > p {
                            assert(seq_lt(pre.label_at(p as int), pre.label_at(j - 1)));
                            lemma_seq_lt_transitive(key@, pre.label_at(p as int), pre.label_at(j - 1));
                        }
                    } else {
                        assert(seq_lt(pre.label_at(i - 1), pre.label_at(j - 1)));
                    }
                }
                assert(!pre.has_label(key@)) by {
                    if pre.has_label(key@) {
                        let q = choose|q: int| 0 <= q < pre.size() && #[trigger] pre.label_at(q) == key@;
                        lemma_seq_lt_irreflexive(key@);
                        if q > p {
                            assert(seq_lt(pre.label_at(p as int), pre.label_at(q)));
                            lemma_seq_lt_transitive(key@, pre.label_at(p as int), key@);
                        }
                    }
                }
                assert forall|k: Seq<char>|
                    #![trigger self.view().dom().contains(k)]
                    self.view().dom().contains(k) == pre.view().insert(key@, secret@).dom().contains(k)
                        && (self.view().dom().contains(k) ==> self.view()[k] == pre.view().insert(key@, secret@)[k]) by {
                    if self.has_label(k) {
                        let i = choose|i: int| 0 <= i < self.size() && #[trigger] self.label_at(i) == k;
                        self.lemma_view_at(i);
                        if i < p {
                            pre.lemma_view_at(i);
                        } else if i > p {
                            pre.lemma_view_at(i - 1);
                        }
                    }
                    if pre.has_label(k) {
                        let i = choose|i: int| 0 <= i < pre.size() && #[trigger] pre.label_at(i) == k;
                        if i < p {
                            assert(self.label_at(i) == k);
                        } else {
                            assert(self.label_at(i + 1) == k);
                        }
                    }
                    if k == key@ {
                        assert(self.label_at(p as int) == k);
                    }
                }
                assert(self.view() =~= pre.view().insert(key@, secret@));
            }
        }
    }

    /// The labels in increasing order, the order in which they are listed and numbered.
    pub fn labels_in_order(&self) -> (r: Vec<String>)
        ensures
            views(r@) == self.labels(),
    {
        let mut r: Vec<String> = Vec::new();
        let mut i: usize = 0;
        while i < self.entries.len()
            invariant
                i <= self.entries@.len(),
                views(r@) == self.labels().take(i as int),
            decreases self.entries.len() - i,
        {
            let l = self.entries[i].0.clone();
            assert(l@ == self.label_at(i as int));
            let ghost before = r@;
            r.push(l);
            assert(views(r@) =~= views(before).push(l@));
            i = i + 1;
            assert(views(r@) =~= self.labels().take(i as int));
        }
        assert(self.labels().take(i as int) =~= self.labels());
        r
    }

    /// The label that `target` designates: the label numbered `target` when `target` is a
    /// number from 1 to the number of labels, else `target` itself.
    pub fn resolve_label(&self, target: &str) -> (r: String)
        ensures
            r@ == resolve_spec(self.labels(), target@),
    {
        match parse_usize(&chars_of(target)) {
            Some(idx) => {
                if idx > 0 && idx <= self.entries.len() {
                    self.entries[idx - 1].0.clone()
                } else {
                    owned(target)
                }
            },
            None => owned(target),
        }
    }

    /// Removes what is stored under `label`; tells whether anything was.
    pub fn remove(&mut self, label: &str) -> (removed: bool)
        requires
            old(self).wf(),
        ensures
            final(self).wf(),
            removed == old(self).view().dom().contains(label@),
            final(self).view() == old(self).view().remove(label@),
    {
        let ghost pre = *self;
        let key = chars_of(label);
        match self.find(&key) {
            None => {
                assert(self.view() =~= pre.view().remove(label@));
                false
            },
            Some(p) => {
                proof {
                    pre.lemma_view_at(p as int);
                }
                self.entries.remove(p);
                proof {
                    assert forall|i: int| 0 <= i < p implies #[trigger] self.label_at(i) == pre.label_at(i) by {}
                    assert forall|i: int| p <= i < self.size() implies #[trigger] self.label_at(i)
                        == pre.label_at(i + 1) by {}
                    assert forall|i: int, j: int| 0 <= i < j < self.size() implies seq_lt(
                        #[trigger] self.label_at(i),
                        #[trigger] self.label_at(j),
                    ) by {
                        if j < p {
                            assert(seq_lt(pre.label_at(i), pre.label_at(j)));
                        } else if i < p {
                            assert(seq_lt(pre.label_at(i), pre.label_at(j + 1)));
                        } else {
                            assert(seq_lt(pre.label_at(i + 1), pre.label_at(j + 1)));
                        }
                    }
                    assert forall|k: Seq<char>|
                        #![trigger self.view().dom().contains(k)]
                        self.view().dom().contains(k) == pre.view().remove(key@).dom().contains(k)
                            && (self.view().dom().contains(k) ==> self.view()[k] == pre.view().remove(key@)[k]) by {
                        if self.has_label(k) {
                            let i = choose|i: int| 0 <= i < self.size() && #[trigger] self.label_at(i) == k;
                            self.lemma_view_at(i);
                            if i < p {
                                pre.lemma_view_at(i);
                                if k == key@ { pre.lemma_unique(i, p as int); }
                            } else {
                                pre.lemma_view_at(i + 1);
                                if k == key@ { pre.lemma_unique(i + 1, p as int); }
                            }
                        }
                        if pre.has_label(k) && k != key@ {
                            let i = choose|i: int| 0 <= i < pre.size() && #[trigger] pre.label_at(i) == k;
                            if i < p {
                                assert(self.label_at(i) == k);
                            } else {
                                assert(i != p);
                                assert(self.label_at(i - 1) == k);
                            }
                        }
                    }
                    assert(self.view() =~= pre.view().remove(label@));
                }
                true
            },
        }
    }
}

/// The label that `target` designates among `labels` (numbered from 1).
pub open spec fn resolve_spec(labels: Seq<Seq<char>>, target: Seq<char>) -> Seq<char> {
    match parse_usize_spec(target) {
        Some(n) => if 1 <= n <= labels.len() {
            labels[n - 1]
        } else {
            target
        },
        None => target,
    }
}

impl TotpStore {
    /// The labels are listed in strictly increasing order, and they are exactly the labels
    /// that have a secret.
    pub proof fn lemma_labels_sorted_and_complete(self)
        requires
            self.wf(),
        ensures
            forall|i: int, j: int|
                0 <= i < j < self.labels().len() ==> seq_lt(
                    #[trigger] self.labels()[i],
                    #[trigger] self.labels()[j],
                ),
            forall|k: Seq<char>| self.view().dom().contains(k) <==> self.labels().contains(k),
    {
        assert forall|k: Seq<char>| self.view().dom().contains(k) <==> self.labels().contains(k) by {
            if self.has_label(k) {
                let i = choose|i: int| 0 <= i < self.size() && #[trigger] self.label_at(i) == k;
                assert(self.labels()[i] == k);
            }
            if self.labels().contains(k) {
                let i = choose|i: int| 0 <= i < self.labels().len() && self.labels()[i] == k;
                assert(self.label_at(i) == k);
            }
        }
    }
}

/// What `serde_json::from_str` reads from `text` as a JSON object of strings, as its
/// (label, secret) pairs in the order in which the map holds them; `None` when `text` is
/// not such an object.
pub uninterp spec fn totp_json_spec(text: Seq<char>) -> Option<Seq<(Seq<char>, Seq<char>)>>;

/// The pretty-printed JSON object that `serde_json::to_string_pretty` writes for the
/// (label, secret) pairs.
pub uninterp spec fn secrets_json_spec(pairs: Seq<(Seq<char>, Seq<char>)>) -> Seq<char>;

/// The pairs of strings, each as its text.
pub open spec fn pair_views(s: Seq<(String, String)>) -> Seq<(Seq<char>, Seq<char>)> {
    Seq::new(s.len(), |i: int| (s[i].0@, s[i].1@))
}

/// The map that the pairs give when entered in order, a later pair replacing an earlier
/// one of the same label.
pub open spec fn map_of_pairs(p: Seq<(Seq<char>, Seq<char>)>) -> Map<Seq<char>, Seq<char>>
    decreases p.len(),
{
    if p.len() == 0 {
        Map::empty()
    } else {
        map_of_pairs(p.drop_last()).insert(p.last().0, p.last().1)
    }
}

/// The store's (label, secret) pairs in label order.
pub open spec fn store_pairs(store: TotpStore) -> Seq<(Seq<char>, Seq<char>)> {
    Seq::new(store.labels().len(), |i: int| (store.labels()[i], store.view()[store.labels()[i]]))
}

/// Reads `text` with `serde_json::from_str` as a `BTreeMap<String, String>` and lists its
/// pairs in the map's order. Claims: the result is the named function of the text.
#[verifier::external_body]
fn parse_secret_pairs(text: &str) -> (r: Option<Vec<(String, String)>>)
    ensures
        match r {
            Some(v) => totp_json_spec(text@) == Some(pair_views(v@)),
            None => totp_json_spec(text@) is None,
        },
{
    match serde_json::from_str::<std::collections::BTreeMap<String, String>>(text) {
        Ok(map) => Some(map.into_iter().collect()),
        Err(_) => None,
    }
}

/// Writes the pairs, entered in order into a `BTreeMap<&str, &str>`, with
/// `serde_json::to_string_pretty`. Claims: the text is the named function of the pairs,
/// and reading it back with `serde_json::from_str` gives a JSON object whose map is the
/// one the pairs give (serde_json writes every string escaped so that it reads back as
/// itself, and a map entered in order keeps the last pair of a label). Writing a map of
/// strings keyed by strings does not fail (serde_json's errors come from failing
/// `Serialize` impls or keys that are not strings); the error arm only satisfies the type.
#[verifier::external_body]
fn secrets_json(pairs: &Vec<(String, String)>) -> (r: String)
    ensures
        r@ == secrets_json_spec(pair_views(pairs@)),
        totp_json_spec(r@) is Some,
        map_of_pairs(totp_json_spec(r@)->0) == map_of_pairs(pair_views(pairs@)),
{
    let mut map = std::collections::BTreeMap::new();
    for (label, secret) in pairs {
        map.insert(label.as_str(), secret.as_str());
    }
    match serde_json::to_string_pretty(&map) {
        Ok(text) => text,
        Err(_) => String::new(),
    }
}

impl TotpStore {
    /// The entries' pairs up to `k` give the map of the labels among them to their secrets.
    proof fn lemma_map_of_entries(self, k: int)
        requires
            self.wf(),
            0 <= k <= self.size(),
        ensures
            forall|key: Seq<char>|
                #[trigger] map_of_pairs(store_pairs(self).take(k)).dom().contains(key) <==> exists|i: int|
                    0 <= i < k && self.label_at(i) == key,
            forall|i: int|
                0 <= i < k ==> #[trigger] map_of_pairs(store_pairs(self).take(k))[self.label_at(i)]
                    == self.secret_at(i),
        decreases k,
    {
        if k > 0 {
            self.lemma_map_of_entries(k - 1);
            let t = store_pairs(self).take(k);
            let prev = map_of_pairs(store_pairs(self).take(k - 1));
            let lk = self.label_at(k - 1);
            assert(t.drop_last() =~= store_pairs(self).take(k - 1));
            self.lemma_view_at(k - 1);
            assert(self.labels()[k - 1] == lk);
            assert(t.last() == (lk, self.secret_at(k - 1)));
            assert(map_of_pairs(t) == prev.insert(lk, self.secret_at(k - 1)));
            assert forall|i: int| 0 <= i < k implies #[trigger] map_of_pairs(t)[self.label_at(i)]
                == self.secret_at(i) by {
                if i < k - 1 {
                    if self.label_at(i) == lk {
                        self.lemma_unique(i, k - 1);
                    }
                    assert(prev[self.label_at(i)] == self.secret_at(i));
                }
            }
            assert forall|key: Seq<char>|
                #[trigger] map_of_pairs(t).dom().contains(key) <==> exists|i: int|
                    0 <= i < k && self.label_at(i) == key by {
                if map_of_pairs(t).dom().contains(key) && key != lk {
                    assert(prev.dom().contains(key));
                    let i = choose|i: int| 0 <= i < k - 1 && self.label_at(i) == key;
                    assert(0 <= i < k && self.label_at(i) == key);
                }
                if key == lk {
                    assert(0 <= k - 1 < k && self.label_at(k - 1) == key);
                }
                if exists|i: int| 0 <= i < k && self.label_at(i) == key {
                    let i = choose|i: int| 0 <= i < k && self.label_at(i) == key;
                    if i < k - 1 {
                        assert(exists|j: int| 0 <= j < k - 1 && self.label_at(j) == key);
                        assert(prev.dom().contains(key));
                    }
                }
            }
        }
    }

    /// The store's pairs give back its map.
    proof fn lemma_map_of_store_pairs(self)
        requires
            self.wf(),
        ensures
            map_of_pairs(store_pairs(self)) == self.view(),
    {
        self.lemma_map_of_entries(self.size() as int);
        assert(store_pairs(self).take(self.size() as int) =~= store_pairs(self));
        let m = map_of_pairs(store_pairs(self));
        assert forall|key: Seq<char>| #[trigger] m.dom().contains(key) <==> self.view().dom().contains(key) by {
            if m.dom().contains(key) {
                let i = choose|i: int| 0 <= i < self.size() && self.label_at(i) == key;
                self.lemma_view_at(i);
            }
            if self.has_label(key) {
                let i = choose|i: int| 0 <= i < self.size() && #[trigger] self.label_at(i) == key;
                assert(exists|j: int| 0 <= j < self.size() && self.label_at(j) == key);
            }
        }
        assert forall|key: Seq<char>| #[trigger] m.dom().contains(key) implies m[key] == self.view()[key] by {
            let i = choose|i: int| 0 <= i < self.size() && self.label_at(i) == key;
            self.lemma_view_at(i);
        }
        assert(m =~= self.view());
    }
}

/// The store that a JSON object of strings gives, its pairs entered in the order read;
/// `None` when the text is not such an object.
pub fn totp_store_from_json(text: &str) -> (r: Option<TotpStore>)
    ensures
        match r {
            Some(s) => s.wf() && (totp_json_spec(text@) matches Some(p) && s.view() == map_of_pairs(p)),
            None => totp_json_spec(text@) is None,
        },
{
    match parse_secret_pairs(text) {
        None => None,
        Some(v) => {
            let mut store = TotpStore::new();
            let mut i: usize = 0;
            while i < v.len()
                invariant
                    i <= v@.len(),
                    store.wf(),
                    store.view() == map_of_pairs(pair_views(v@).take(i as int)),
                decreases v.len() - i,
            {
                let label = v[i].0.clone();
                let secret = v[i].1.clone();
                store.insert(label, secret);
                assert(pair_views(v@).take(i + 1).drop_last() =~= pair_views(v@).take(i as int));
                i = i + 1;
            }
            assert(pair_views(v@).take(i as int) =~= pair_views(v@));
            Some(store)
        },
    }
}

/// The JSON text under which the store is kept: its pairs in label order, written by
/// serde_json. Reading the text back gives the same secrets.
pub fn totp_store_to_json(store: &TotpStore) -> (r: String)
    requires
        store.wf(),
    ensures
        r@ == secrets_json_spec(store_pairs(*store)),
        totp_json_spec(r@) matches Some(p) && map_of_pairs(p) == store.view(),
{
    let mut pairs: Vec<(String, String)> = Vec::new();
    let mut i: usize = 0;
    while i < store.entries.len()
        invariant
            i <= store.size(),
            store.wf(),
            pairs@.len() == i,
            pair_views(pairs@) == store_pairs(*store).take(i as int),
        decreases store.entries.len() - i,
    {
        let label = store.entries[i].0.clone();
        let secret = store.entries[i].1.clone();
        proof {
            store.lemma_view_at(i as int);
            assert(store.labels()[i as int] == store.label_at(i as int));
            assert(label@ == store.label_at(i as int));
            assert(secret@ == store.secret_at(i as int));
        }
        let ghost lv = label@;
        let ghost sv = secret@;
        pairs.push((label, secret));
        assert(pairs@.len() == i + 1);
        assert(pairs@[i as int].0@ == lv);
        assert(pairs@[i as int].1@ == sv);
        assert(i < store.size());
        assert(store_pairs(*store)[i as int] == (lv, sv));
        assert(pair_views(pairs@)[i as int] == store_pairs(*store)[i as int]);
        assert(pair_views(pairs@) =~= store_pairs(*store).take(i + 1));
        i = i + 1;
    }
    assert(store_pairs(*store).take(i as int) =~= store_pairs(*store));
    proof {
        store.lemma_map_of_store_pairs();
    }
    secrets_json(&pairs)
}

/// What a TOTP command line asks for.
pub enum TotpCommand {
    /// Delete was asked for without a label or number.
    MissingDeleteTarget,
    /// Delete the secret with this label or number.
    Delete(String),
    /// Register a secret under a label.
    Add(String, String),
    /// Show the current code of this label or number.
    Show(String),
    /// List the labels.
    List,
}

/// One of the flags that ask for deletion.
pub open spec fn is_delete_request(args: Seq<Seq<char>>) -> bool {
    ||| has_arg_from(args, 0, "-f"@)
    ||| has_arg_from(args, 0, "-d"@)
    ||| has_arg_from(args, 0, "--delete"@)
    ||| has_arg_from(args, 0, "--rm"@)
}

/// Reads a TOTP command line (`args[0]` is the program name): with a delete flag,
/// the first positional argument is the target; else two or more positional arguments are
/// a label and a secret (the rest joined without separator), one is a label or number to
/// show, none lists the labels.
pub fn plan_totp_command(args: &Vec<String>) -> (c: TotpCommand)
    ensures
        ({
            let pos = positional_spec(tail_from(views(args@), 1));
            let del = is_delete_request(views(args@));
            match c {
                TotpCommand::MissingDeleteTarget => del && pos.len() == 0,
                TotpCommand::Delete(t) => del && pos.len() > 0 && t@ == pos[0],
                TotpCommand::Add(label, secret) => !del && pos.len() >= 2 && label@ == pos[0]
                    && secret@ == join_spec(pos.skip(1), Seq::empty()),
                TotpCommand::Show(a) => !del && pos.len() == 1 && a@ == pos[0],
                TotpCommand::List => !del && pos.len() == 0,
            }
        }),
{
    let pos = positional_args(args, 1);
    let del = arg_present(args, 0, "-f") || arg_present(args, 0, "-d") || arg_present(
        args,
        0,
        "--delete",
    ) || arg_present(args, 0, "--rm");
    if del {
        if pos.len() == 0 {
            TotpCommand::MissingDeleteTarget
        } else {
            TotpCommand::Delete(pos[0].clone())
        }
    } else if pos.len() >= 2 {
        let secret = join_from(&pos, 1, "");
        proof {
            reveal_strlit("");
            assert(""@ =~= Seq::<char>::empty());
        }
        TotpCommand::Add(pos[0].clone(), secret)
    } else if pos.len() == 1 {
        TotpCommand::Show(pos[0].clone())
    } else {
        TotpCommand::List
    }
}

/// The encrypted TOTP store inside the note directory `note_dir`.
pub fn get_totp_storage_path(note_dir: &str) -> (r: String)
    ensures
        r@ == crate::path_join_spec(note_dir@, "totp_secrets.json.gpg"@),
{
    crate::path_join(note_dir, "totp_secrets.json.gpg")
}

/// The plain TOTP store of older versions inside the application directory.
pub fn get_legacy_totp_storage_path(app_config_dir: &str) -> (r: String)
    ensures
        r@ == crate::path_join_spec(app_config_dir@, "totp_secrets.json"@),
{
    crate::path_join(app_config_dir, "totp_secrets.json")
}

/// A TOTP code is six ASCII digits, and it stays valid between 1 and 30 more seconds,
/// until the end of the current 30-second step.
pub proof fn lemma_totp_shape(key: Seq<u8>, now: u64)
    ensures
        totp_spec(key, now).0.len() == 6,
        forall|i: int| 0 <= i < 6 ==> crate::text::is_digit(#[trigger] totp_spec(key, now).0[i]),
        1 <= totp_spec(key, now).1 <= 30,
        now + totp_spec(key, now).1 == (now / 30 + 1) * 30,
{
    reveal(totp_spec);
}

/// Within one 30-second step the code does not change.
pub proof fn lemma_totp_same_step(key: Seq<u8>, now1: u64, now2: u64)
    requires
        now1 / 30 == now2 / 30,
    ensures
        totp_spec(key, now1).0 == totp_spec(key, now2).0,
{
    reveal(totp_spec);
}

proof fn lemma_strip_ws_case(s: Seq<char>)
    requires
        vstd::utf8::is_ascii_chars(s),
    ensures
        strip_ws(crate::text::ascii_lower(s)) == crate::text::ascii_lower(strip_ws(s)),
        strip_ws(crate::text::ascii_upper(s)) == crate::text::ascii_upper(strip_ws(s)),
        vstd::utf8::is_ascii_chars(strip_ws(s)),
    decreases s.len(),
{
    let lo = crate::text::ascii_lower(s);
    let up = crate::text::ascii_upper(s);
    if s.len() > 0 {
        let d = s.drop_last();
        assert(vstd::utf8::is_ascii_chars(d)) by {
            assert forall|i: int| 0 <= i < d.len() implies '\0' <= #[trigger] d[i] <= '\u{7f}' by {
                assert(d[i] == s[i]);
            }
        }
        lemma_strip_ws_case(d);
        assert(lo.drop_last() =~= crate::text::ascii_lower(d));
        assert(up.drop_last() =~= crate::text::ascii_upper(d));
        assert(lo.last() == crate::text::ascii_lower_char(s.last()));
        assert(up.last() == crate::text::ascii_upper_char(s.last()));
        let r = strip_ws(d);
        if !is_ws(s.last()) {
            assert(crate::text::ascii_lower(r.push(s.last())) =~= crate::text::ascii_lower(r).push(
                crate::text::ascii_lower_char(s.last()),
            ));
            assert(crate::text::ascii_upper(r.push(s.last())) =~= crate::text::ascii_upper(r).push(
                crate::text::ascii_upper_char(s.last()),
            ));
            assert forall|i: int| 0 <= i < r.push(s.last()).len() implies '\0' <= #[trigger] r.push(
                s.last(),
            )[i] <= '\u{7f}' by {
                if i < r.len() {
                    assert(r.push(s.last())[i] == r[i]);
                }
            }
        }
    } else {
        assert(lo =~= s);
        assert(up =~= s);
    }
}

/// Letter case in an ASCII secret does not matter: the lower-cased and the upper-cased
/// secret are cleaned to the same text, so they decode to the same key and give the same
/// codes.
pub proof fn lemma_secret_case_ignored(secret: Seq<char>)
    requires
        vstd::utf8::is_ascii_chars(secret),
    ensures
        clean_secret(crate::text::ascii_lower(secret)) == clean_secret(secret),
        clean_secret(crate::text::ascii_upper(secret)) == clean_secret(secret),
{
    lemma_strip_ws_case(secret);
    let t = strip_ws(secret);
    crate::text::lemma_ascii_case_pair(t);
}

} // verus!
