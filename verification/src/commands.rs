use vstd::prelude::*;

use crate::args::{has_arg_from, is_flag};
use crate::cli::{arg_chars, char_views};
use crate::text::{chars_eq, chars_of, has_prefix, parse_u64, parse_u64_spec, starts_with_chars, views};

verus! {

fn is_lit(a: &Vec<char>, lit: &str) -> (b: bool)
    ensures
        b == (a@ == lit@),
{
    chars_eq(a, &chars_of(lit))
}

fn flag_like(a: &Vec<char>) -> (b: bool)
    ensures
        b == is_flag(a@),
{
    starts_with_chars(a, &chars_of("-"))
}

/// The choices of an encryption command.
pub struct EncryptOptions {
    /// Encrypt with this passphrase (symmetric S2K) instead of a public key.
    pub passphrase: Option<String>,
    /// Encrypt to this key instead of the configured one.
    pub key_id: Option<String>,
    /// The S2K iteration count asked for (`None` when absent or not a number).
    pub iterations: Option<u64>,
    /// Write here instead of next to the file.
    pub out_path: Option<String>,
    /// Push the result to the Gist.
    pub upload: bool,
    /// Encrypt every plain file of the note directory.
    pub all: bool,
    /// The files named on the command line.
    pub files: Vec<String>,
}

/// What an encryption command line holds, as values: passphrase, key, iterations, output,
/// upload, files.
pub type EncryptScan = (
    Option<Seq<char>>,
    Option<Seq<char>>,
    Option<u64>,
    Option<Seq<char>>,
    bool,
    Seq<Seq<char>>,
);

/// Reads the options of an encryption command from argument `i` on: `--pass`/`-P`/
/// `--password`/`-p`, `--id`/`--key`, `--iter`/`--iterations` and `--out`/`-o` take the
/// next argument (when there is one); `-u`/`--upload`/`-s`/`--sync` ask for upload;
/// other arguments that are not flags are files.
pub open spec fn encrypt_scan(args: Seq<Seq<char>>, i: int, st: EncryptScan) -> EncryptScan
    decreases args.len() - i,
{
    if i < 0 || i >= args.len() {
        st
    } else {
        let a = args[i];
        let has_next = i + 1 < args.len();
        if a == "--pass"@ || a == "-P"@ || a == "--password"@ || a == "-p"@ {
            if has_next {
                encrypt_scan(args, i + 2, (Some(args[i + 1]), st.1, st.2, st.3, st.4, st.5))
            } else {
                encrypt_scan(args, i + 1, st)
            }
        } else if a == "--id"@ || a == "--key"@ {
            if has_next {
                encrypt_scan(args, i + 2, (st.0, Some(args[i + 1]), st.2, st.3, st.4, st.5))
            } else {
                encrypt_scan(args, i + 1, st)
            }
        } else if a == "--iter"@ || a == "--iterations"@ {
            if has_next {
                encrypt_scan(
                    args,
                    i + 2,
                    (
                        st.0,
                        st.1,
                        match parse_u64_spec(args[i + 1]) {
                            Some(n) => Some(n as u64),
                            None => None,
                        },
                        st.3,
                        st.4,
                        st.5,
                    ),
                )
            } else {
                encrypt_scan(args, i + 1, st)
            }
        } else if a == "--out"@ || a == "-o"@ {
            if has_next {
                encrypt_scan(args, i + 2, (st.0, st.1, st.2, Some(args[i + 1]), st.4, st.5))
            } else {
                encrypt_scan(args, i + 1, st)
            }
        } else if a == "-u"@ || a == "--upload"@ || a == "-s"@ || a == "--sync"@ {
            encrypt_scan(args, i + 1, (st.0, st.1, st.2, st.3, true, st.5))
        } else if !is_flag(a) {
            encrypt_scan(args, i + 1, (st.0, st.1, st.2, st.3, st.4, st.5.push(a)))
        } else {
            encrypt_scan(args, i + 1, st)
        }
    }
}

/// Reads the arguments of the passphrase form from argument `i` on: `-s`/`-u` ask for
/// upload, arguments that are not flags are files.
pub open spec fn pass_form_scan(args: Seq<Seq<char>>, i: int, upload: bool, files: Seq<Seq<char>>) -> (bool, Seq<Seq<char>>)
    decreases args.len() - i,
{
    if i < 0 || i >= args.len() {
        (upload, files)
    } else if args[i] == "-s"@ || args[i] == "-u"@ {
        pass_form_scan(args, i + 1, true, files)
    } else if !is_flag(args[i]) {
        pass_form_scan(args, i + 1, upload, files.push(args[i]))
    } else {
        pass_form_scan(args, i + 1, upload, files)
    }
}

/// The passphrase form of the encryption command: `-p`, `-ep` or `-pe` first.
pub open spec fn is_pass_form(args: Seq<Seq<char>>) -> bool {
    args.len() > 1 && (args[1] == "-p"@ || args[1] == "-ep"@ || args[1] == "-pe"@)
}

/// The view of encryption options as plain values.
pub open spec fn encrypt_options_view(o: EncryptOptions) -> (EncryptScan, bool) {
    (
        (
            match o.passphrase {
                Some(p) => Some(p@),
                None => None,
            },
            match o.key_id {
                Some(k) => Some(k@),
                None => None,
            },
            o.iterations,
            match o.out_path {
                Some(p) => Some(p@),
                None => None,
            },
            o.upload,
            views(o.files@),
        ),
        o.all,
    )
}

/// Reads an encryption command line. In the passphrase form (`-p PASS FILE...`) fewer than
/// four arguments is an error (`None`); otherwise the options are read from the third
/// argument on. `-b` or `-a` anywhere asks for every file.
pub fn parse_encrypt_args(args: &Vec<String>) -> (r: Option<EncryptOptions>)
    ensures
        ({
            let v = views(args@);
            let all = has_arg_from(v, 0, "-b"@) || has_arg_from(v, 0, "-a"@);
            if is_pass_form(v) {
                if v.len() < 4 {
                    r is None
                } else {
                    let (upload, files) = pass_form_scan(v, 3, false, Seq::empty());
                    r matches Some(o) && encrypt_options_view(o) == (
                        (Some(v[2]), None::<Seq<char>>, None::<u64>, None::<Seq<char>>, upload, files),
                        all,
                    )
                }
            } else {
                r matches Some(o) && encrypt_options_view(o) == (
                    encrypt_scan(v, 2, (None, None, None, None, false, Seq::empty())),
                    all,
                )
            }
        }),
{
    let a = arg_chars(args);
    let ghost v = views(args@);
    let all = crate::args::arg_present(args, 0, "-b") || crate::args::arg_present(args, 0, "-a");
    if a.len() > 1 && (is_lit(&a[1], "-p") || is_lit(&a[1], "-ep") || is_lit(&a[1], "-pe")) {
        if a.len() < 4 {
            return None;
        }
        let mut upload = false;
        let mut files: Vec<String> = Vec::new();
        let mut i: usize = 3;
        assert(views(files@) =~= Seq::<Seq<char>>::empty());
        while i < a.len()
            invariant
                3 <= i <= a.len(),
                v == views(args@),
                char_views(a@) == v,
                pass_form_scan(v, 3, false, Seq::empty()) == pass_form_scan(v, i as int, upload, views(files@)),
            decreases a.len() - i,
        {
            if is_lit(&a[i], "-s") || is_lit(&a[i], "-u") {
                upload = true;
            } else if !flag_like(&a[i]) {
                let ghost before = files@;
                files.push(args[i].clone());
                assert(views(files@) =~= views(before).push(v[i as int]));
            }
            i = i + 1;
        }
        return Some(
            EncryptOptions {
                passphrase: Some(args[2].clone()),
                key_id: None,
                iterations: None,
                out_path: None,
                upload,
                all,
                files,
            },
        );
    }
    let mut passphrase: Option<String> = None;
    let mut key_id: Option<String> = None;
    let mut iterations: Option<u64> = None;
    let mut out_path: Option<String> = None;
    let mut upload = false;
    let mut files: Vec<String> = Vec::new();
    let mut i: usize = 2;
    assert(views(files@) =~= Seq::<Seq<char>>::empty());
    while i < a.len()
        invariant
            2 <= i,
            v == views(args@),
            char_views(a@) == v,
            a@.len() == args@.len(),
            encrypt_scan(v, 2, (None, None, None, None, false, Seq::empty())) == encrypt_scan(
                v,
                i as int,
                (
                    match passphrase {
                        Some(p) => Some(p@),
                        None => None,
                    },
                    match key_id {
                        Some(k) => Some(k@),
                        None => None,
                    },
                    iterations,
                    match out_path {
                        Some(p) => Some(p@),
                        None => None,
                    },
                    upload,
                    views(files@),
                ),
            ),
        decreases a.len() - i,
    {
        let x = &a[i];
        let has_next = i + 1 < a.len();
        if is_lit(x, "--pass") || is_lit(x, "-P") || is_lit(x, "--password") || is_lit(x, "-p") {
            if has_next {
                passphrase = Some(args[i + 1].clone());
                i = i + 2;
            } else {
                i = i + 1;
            }
        } else if is_lit(x, "--id") || is_lit(x, "--key") {
            if has_next {
                key_id = Some(args[i + 1].clone());
                i = i + 2;
            } else {
                i = i + 1;
            }
        } else if is_lit(x, "--iter") || is_lit(x, "--iterations") {
            if has_next {
                iterations = parse_u64(&a[i + 1]);
                i = i + 2;
            } else {
                i = i + 1;
            }
        } else if is_lit(x, "--out") || is_lit(x, "-o") {
            if has_next {
                out_path = Some(args[i + 1].clone());
                i = i + 2;
            } else {
                i = i + 1;
            }
        } else if is_lit(x, "-u") || is_lit(x, "--upload") || is_lit(x, "-s") || is_lit(x, "--sync") {
            upload = true;
            i = i + 1;
        } else if !flag_like(x) {
            let ghost before = files@;
            files.push(args[i].clone());
            assert(views(files@) =~= views(before).push(v[i as int]));
            i = i + 1;
        } else {
            i = i + 1;
        }
    }
    Some(EncryptOptions { passphrase, key_id, iterations, out_path, upload, all, files })
}

/// The choices of a decryption command.
pub struct DecryptOptions {
    /// The passphrase of a symmetric encryption.
    pub passphrase: Option<String>,
    /// Write here instead of next to the file.
    pub out_path: Option<String>,
    /// Decrypt every `.gpg` file of the note directory.
    pub all: bool,
    /// The files named on the command line.
    pub files: Vec<String>,
}

/// Reads the options of a decryption command from argument `i` on: `--pass`/`-P`/
/// `--password` and `--out`/`-o` take the next argument (when there is one); other
/// arguments that are not flags are files.
pub open spec fn decrypt_scan(
    args: Seq<Seq<char>>,
    i: int,
    st: (Option<Seq<char>>, Option<Seq<char>>, Seq<Seq<char>>),
) -> (Option<Seq<char>>, Option<Seq<char>>, Seq<Seq<char>>)
    decreases args.len() - i,
{
    if i < 0 || i >= args.len() {
        st
    } else {
        let a = args[i];
        let has_next = i + 1 < args.len();
        if a == "--pass"@ || a == "-P"@ || a == "--password"@ {
            if has_next {
                decrypt_scan(args, i + 2, (Some(args[i + 1]), st.1, st.2))
            } else {
                decrypt_scan(args, i + 1, st)
            }
        } else if a == "--out"@ || a == "-o"@ {
            if has_next {
                decrypt_scan(args, i + 2, (st.0, Some(args[i + 1]), st.2))
            } else {
                decrypt_scan(args, i + 1, st)
            }
        } else if !is_flag(a) {
            decrypt_scan(args, i + 1, (st.0, st.1, st.2.push(a)))
        } else {
            decrypt_scan(args, i + 1, st)
        }
    }
}

/// The view of an optional string.
pub open spec fn opt_view(o: Option<String>) -> Option<Seq<char>> {
    match o {
        Some(s) => Some(s@),
        None => None,
    }
}

/// Reads a decryption command line (options from the third argument on); `--all` or `-a`
/// anywhere asks for every file.
pub fn parse_decrypt_args(args: &Vec<String>) -> (o: DecryptOptions)
    ensures
        ({
            let v = views(args@);
            (opt_view(o.passphrase), opt_view(o.out_path), views(o.files@)) == decrypt_scan(
                v,
                2,
                (None, None, Seq::empty()),
            ) && o.all == (has_arg_from(v, 0, "--all"@) || has_arg_from(v, 0, "-a"@))
        }),
{
    let a = arg_chars(args);
    let ghost v = views(args@);
    let all = crate::args::arg_present(args, 0, "--all") || crate::args::arg_present(args, 0, "-a");
    let mut passphrase: Option<String> = None;
    let mut out_path: Option<String> = None;
    let mut files: Vec<String> = Vec::new();
    let mut i: usize = 2;
    assert(views(files@) =~= Seq::<Seq<char>>::empty());
    while i < a.len()
        invariant
            2 <= i,
            v == views(args@),
            char_views(a@) == v,
            a@.len() == args@.len(),
            decrypt_scan(v, 2, (None, None, Seq::empty())) == decrypt_scan(
                v,
                i as int,
                (opt_view(passphrase), opt_view(out_path), views(files@)),
            ),
        decreases a.len() - i,
    {
        let x = &a[i];
        let has_next = i + 1 < a.len();
        if is_lit(x, "--pass") || is_lit(x, "-P") || is_lit(x, "--password") {
            if has_next {
                passphrase = Some(args[i + 1].clone());
                i = i + 2;
            } else {
                i = i + 1;
            }
        } else if is_lit(x, "--out") || is_lit(x, "-o") {
            if has_next {
                out_path = Some(args[i + 1].clone());
                i = i + 2;
            } else {
                i = i + 1;
            }
        } else if !flag_like(x) {
            let ghost before = files@;
            files.push(args[i].clone());
            assert(views(files@) =~= views(before).push(v[i as int]));
            i = i + 1;
        } else {
            i = i + 1;
        }
    }
    DecryptOptions { passphrase, out_path, all, files }
}

/// The choices of an in-place remote encryption.
pub struct RemoteEncryptOptions {
    /// The remote file to encrypt.
    pub file: Option<String>,
    /// Encrypt with this passphrase instead of the configured key.
    pub passphrase: Option<String>,
    /// The S2K iteration count asked for (`None` when absent or not a number).
    pub iterations: Option<u64>,
    /// Delete the plain remote original (unless `--keep-raw` or `--keep-original`).
    pub delete_original: bool,
}

/// Reads a remote-encryption command line from argument `i` on: `--pass`/`-P`/`--password`
/// and `--iter`/`--iterations` take the next argument; the known flags are skipped; the
/// first other argument that is not a flag names the file.
pub open spec fn remote_encrypt_scan(
    args: Seq<Seq<char>>,
    i: int,
    st: (Option<Seq<char>>, Option<Seq<char>>, Option<u64>),
) -> (Option<Seq<char>>, Option<Seq<char>>, Option<u64>)
    decreases args.len() - i,
{
    if i < 0 || i >= args.len() {
        st
    } else {
        let a = args[i];
        let has_next = i + 1 < args.len();
        if a == "--pass"@ || a == "-P"@ || a == "--password"@ {
            if has_next {
                remote_encrypt_scan(args, i + 2, (st.0, Some(args[i + 1]), st.2))
            } else {
                remote_encrypt_scan(args, i + 1, st)
            }
        } else if a == "--iter"@ || a == "--iterations"@ {
            if has_next {
                remote_encrypt_scan(
                    args,
                    i + 2,
                    (
                        st.0,
                        st.1,
                        match parse_u64_spec(args[i + 1]) {
                            Some(n) => Some(n as u64),
                            None => None,
                        },
                    ),
                )
            } else {
                remote_encrypt_scan(args, i + 1, st)
            }
        } else if a == "--remote"@ || a == "--delete-original"@ || a == "--keep-raw"@ || a == "-v"@
            || a == "--verbose"@ {
            remote_encrypt_scan(args, i + 1, st)
        } else if !is_flag(a) && st.0 is None {
            remote_encrypt_scan(args, i + 1, (Some(a), st.1, st.2))
        } else {
            remote_encrypt_scan(args, i + 1, st)
        }
    }
}

/// Reads a remote-encryption command line (options from the third argument on).
pub fn parse_remote_encrypt_args(args: &Vec<String>) -> (o: RemoteEncryptOptions)
    ensures
        ({
            let v = views(args@);
            (opt_view(o.file), opt_view(o.passphrase), o.iterations) == remote_encrypt_scan(
                v,
                2,
                (None, None, None),
            ) && o.delete_original == !(has_arg_from(v, 0, "--keep-raw"@) || has_arg_from(
                v,
                0,
                "--keep-original"@,
            ))
        }),
{
    let a = arg_chars(args);
    let ghost v = views(args@);
    let keep = crate::args::arg_present(args, 0, "--keep-raw") || crate::args::arg_present(
        args,
        0,
        "--keep-original",
    );
    let mut file: Option<String> = None;
    let mut passphrase: Option<String> = None;
    let mut iterations: Option<u64> = None;
    let mut i: usize = 2;
    while i < a.len()
        invariant
            2 <= i,
            v == views(args@),
            char_views(a@) == v,
            a@.len() == args@.len(),
            remote_encrypt_scan(v, 2, (None, None, None)) == remote_encrypt_scan(
                v,
                i as int,
                (opt_view(file), opt_view(passphrase), iterations),
            ),
        decreases a.len() - i,
    {
        let x = &a[i];
        let has_next = i + 1 < a.len();
        if is_lit(x, "--pass") || is_lit(x, "-P") || is_lit(x, "--password") {
            if has_next {
                passphrase = Some(args[i + 1].clone());
                i = i + 2;
            } else {
                i = i + 1;
            }
        } else if is_lit(x, "--iter") || is_lit(x, "--iterations") {
            if has_next {
                iterations = parse_u64(&a[i + 1]);
                i = i + 2;
            } else {
                i = i + 1;
            }
        } else if is_lit(x, "--remote") || is_lit(x, "--delete-original") || is_lit(x, "--keep-raw")
            || is_lit(x, "-v") || is_lit(x, "--verbose") {
            i = i + 1;
        } else if !flag_like(x) && file.is_none() {
            file = Some(args[i].clone());
            i = i + 1;
        } else {
            i = i + 1;
        }
    }
    RemoteEncryptOptions { file, passphrase, iterations, delete_original: !keep }
}

/// The choices of a new-file command.
pub struct NewFileOptions {
    /// The directory asked for with `-o`/`--out`/`--output` (`.` when no directory follows).
    pub out_dir: Option<String>,
    /// The file name, when one is given.
    pub file_name: Option<String>,
    /// The content: the remaining positional arguments joined by spaces, or a newline.
    pub content: String,
    /// Create the file in the Gist instead of the note directory.
    pub sync: bool,
}

/// Reads a new-file command line from argument `i` on: `-o`/`--out`/`--output` takes the
/// next argument when it is not a flag (else the current directory); other flags are
/// skipped; the rest are positional.
pub open spec fn new_file_scan(
    args: Seq<Seq<char>>,
    i: int,
    st: (Option<Seq<char>>, Seq<Seq<char>>),
) -> (Option<Seq<char>>, Seq<Seq<char>>)
    decreases args.len() - i,
{
    if i < 0 || i >= args.len() {
        st
    } else {
        let a = args[i];
        if a == "-o"@ || a == "--out"@ || a == "--output"@ {
            if i + 1 < args.len() && !is_flag(args[i + 1]) {
                new_file_scan(args, i + 2, (Some(args[i + 1]), st.1))
            } else {
                new_file_scan(args, i + 1, (Some("."@), st.1))
            }
        } else if is_flag(a) {
            new_file_scan(args, i + 1, st)
        } else {
            new_file_scan(args, i + 1, (st.0, st.1.push(a)))
        }
    }
}

/// Reads a new-file command line (from the second argument on).
pub fn parse_new_file_args(args: &Vec<String>) -> (o: NewFileOptions)
    ensures
        ({
            let v = views(args@);
            let (dir, pos) = new_file_scan(v, 1, (None, Seq::empty()));
            &&& opt_view(o.out_dir) == dir
            &&& (pos.len() == 0 <==> o.file_name is None)
            &&& (pos.len() > 0 ==> (o.file_name matches Some(f) && f@ == pos[0]))
            &&& o.content@ == if pos.len() > 1 {
                crate::text::join_spec(pos.skip(1), " "@)
            } else {
                "\n"@
            }
            &&& o.sync == (has_arg_from(v, 0, "-s"@) || has_arg_from(v, 0, "--sync"@)
                || has_arg_from(v, 0, "-u"@) || has_arg_from(v, 0, "--upload"@))
        }),
{
    let a = arg_chars(args);
    let ghost v = views(args@);
    let mut out_dir: Option<String> = None;
    let mut pos: Vec<String> = Vec::new();
    let mut i: usize = 1;
    assert(views(pos@) =~= Seq::<Seq<char>>::empty());
    while i < a.len()
        invariant
            1 <= i,
            v == views(args@),
            char_views(a@) == v,
            a@.len() == args@.len(),
            new_file_scan(v, 1, (None, Seq::empty())) == new_file_scan(
                v,
                i as int,
                (opt_view(out_dir), views(pos@)),
            ),
        decreases a.len() - i,
    {
        let x = &a[i];
        if is_lit(x, "-o") || is_lit(x, "--out") || is_lit(x, "--output") {
            if i + 1 < a.len() && !flag_like(&a[i + 1]) {
                out_dir = Some(args[i + 1].clone());
                i = i + 2;
            } else {
                out_dir = Some(crate::text::owned("."));
                i = i + 1;
            }
        } else if flag_like(x) {
            i = i + 1;
        } else {
            let ghost before = pos@;
            pos.push(args[i].clone());
            assert(views(pos@) =~= views(before).push(v[i as int]));
            i = i + 1;
        }
    }
    let file_name = if pos.len() > 0 {
        Some(pos[0].clone())
    } else {
        None
    };
    let content = if pos.len() > 1 {
        crate::text::join_from(&pos, 1, " ")
    } else {
        crate::text::owned("\n")
    };
    let sync = crate::args::arg_present(args, 0, "-s") || crate::args::arg_present(args, 0, "--sync")
        || crate::args::arg_present(args, 0, "-u") || crate::args::arg_present(args, 0, "--upload");
    NewFileOptions { out_dir, file_name, content, sync }
}

/// An argument (after the program name) that asks for every file: one of `extra`, or a
/// short flag with the letter `b`.
pub open spec fn asks_all(a: Seq<char>, extra1: Seq<char>, extra2: Seq<char>) -> bool {
    ||| a == "--all"@
    ||| a == "-a"@
    ||| a == "-b"@
    ||| a == extra1
    ||| a == extra2
    ||| a == "all"@
    ||| (has_prefix(a, "-"@) && !has_prefix(a, "--"@) && exists|j: int| 0 <= j < a.len() && a[j] == 'b')
}

/// Some argument after the program name asks for every file.
pub open spec fn batch_requested(args: Seq<Seq<char>>, extra1: Seq<char>, extra2: Seq<char>) -> bool {
    exists|i: int| 1 <= i < args.len() && asks_all(#[trigger] args[i], extra1, extra2)
}

fn char_in(a: &Vec<char>, c: char) -> (b: bool)
    ensures
        b == exists|j: int| 0 <= j < a@.len() && a@[j] == c,
{
    let mut j: usize = 0;
    while j < a.len()
        invariant
            j <= a.len(),
            forall|k: int| 0 <= k < j ==> a@[k] != c,
        decreases a.len() - j,
    {
        if a[j] == c {
            return true;
        }
        j = j + 1;
    }
    false
}

fn all_arg(a: &Vec<char>, extra1: &str, extra2: &str) -> (b: bool)
    ensures
        b == asks_all(a@, extra1@, extra2@),
{
    is_lit(a, "--all") || is_lit(a, "-a") || is_lit(a, "-b") || is_lit(a, extra1) || is_lit(
        a,
        extra2,
    ) || is_lit(a, "all") || (flag_like(a) && !starts_with_chars(a, &chars_of("--")) && char_in(
        a,
        'b',
    ))
}

/// Tells whether the command line asks for every file (`--all`, `-a`, `-b`, `all`, one of
/// the two command-specific combinations, or any short flag with `b`).
pub fn batch_flag(args: &Vec<String>, extra1: &str, extra2: &str) -> (b: bool)
    ensures
        b == batch_requested(views(args@), extra1@, extra2@),
{
    let a = arg_chars(args);
    let ghost v = views(args@);
    let mut i: usize = 1;
    while i < a.len()
        invariant
            1 <= i,
            char_views(a@) == v,
            v == views(args@),
            forall|k: int| 1 <= k < i && k < v.len() ==> !asks_all(#[trigger] v[k], extra1@, extra2@),
        decreases a.len() - i,
    {
        if all_arg(&a[i], extra1, extra2) {
            assert(asks_all(v[i as int], extra1@, extra2@));
            return true;
        }
        i = i + 1;
    }
    false
}

/// Reads the `-o`/`--out`/`--output` value of a download command (the last one given)
/// from argument `i` on.
pub open spec fn download_out_scan(args: Seq<Seq<char>>, i: int, out: Option<Seq<char>>) -> Option<Seq<char>>
    decreases args.len() - i,
{
    if i < 0 || i >= args.len() {
        out
    } else if (args[i] == "-o"@ || args[i] == "--out"@ || args[i] == "--output"@) && i + 1 < args.len() {
        download_out_scan(args, i + 2, Some(args[i + 1]))
    } else {
        download_out_scan(args, i + 1, out)
    }
}

/// Reads the file named by a download command from argument `i` on: `-o` and the like
/// skip their value, the verbosity and decryption flags are skipped, and the first other
/// argument that is not a flag is the target.
pub open spec fn download_target_scan(args: Seq<Seq<char>>, i: int, t: Option<Seq<char>>) -> Option<Seq<char>>
    decreases args.len() + 1 - i,
{
    if i < 0 || i >= args.len() {
        t
    } else if args[i] == "-o"@ || args[i] == "--out"@ || args[i] == "--output"@ {
        download_target_scan(args, i + 2, t)
    } else if args[i] == "-x"@ || args[i] == "--decrypt"@ || args[i] == "-v"@ || args[i] == "-vv"@
        || args[i] == "--verbose"@ {
        download_target_scan(args, i + 1, t)
    } else if !is_flag(args[i]) && t is None {
        download_target_scan(args, i + 1, Some(args[i]))
    } else {
        download_target_scan(args, i + 1, t)
    }
}

/// The choices of a download command.
pub struct DownloadOptions {
    /// Decrypt what is downloaded (`-x`/`--decrypt`).
    pub decrypt: bool,
    /// Download every file of the Gist.
    pub all: bool,
    /// The output file or directory.
    pub out_path: Option<String>,
    /// The file named (a four-digit year stands for that year's note).
    pub target: Option<String>,
}

/// Reads a download command line (options from the third argument on).
pub fn parse_download_args(args: &Vec<String>) -> (o: DownloadOptions)
    ensures
        ({
            let v = views(args@);
            &&& o.decrypt == (has_arg_from(v, 0, "-x"@) || has_arg_from(v, 0, "--decrypt"@))
            &&& o.all == batch_requested(v, "-bd"@, "-db"@)
            &&& opt_view(o.out_path) == download_out_scan(v, 2, None)
            &&& opt_view(o.target) == download_target_scan(v, 2, None)
        }),
{
    let a = arg_chars(args);
    let ghost v = views(args@);
    let decrypt = crate::args::arg_present(args, 0, "-x") || crate::args::arg_present(args, 0, "--decrypt");
    let all = batch_flag(args, "-bd", "-db");
    let mut out_path: Option<String> = None;
    let mut i: usize = 2;
    while i < a.len()
        invariant
            2 <= i,
            v == views(args@),
            char_views(a@) == v,
            a@.len() == args@.len(),
            download_out_scan(v, 2, None) == download_out_scan(v, i as int, opt_view(out_path)),
        decreases a.len() - i,
    {
        if (is_lit(&a[i], "-o") || is_lit(&a[i], "--out") || is_lit(&a[i], "--output")) && i + 1 < a.len() {
            out_path = Some(args[i + 1].clone());
            i = i + 2;
        } else {
            i = i + 1;
        }
    }
    let mut target: Option<String> = None;
    let mut j: usize = 2;
    while j < a.len()
        invariant
            2 <= j,
            v == views(args@),
            char_views(a@) == v,
            a@.len() == args@.len(),
            download_target_scan(v, 2, None) == download_target_scan(v, j as int, opt_view(target)),
        decreases a.len() - j,
    {
        let x = &a[j];
        if is_lit(x, "-o") || is_lit(x, "--out") || is_lit(x, "--output") {
            if a.len() - j <= 2 {
                proof {
                    assert(download_target_scan(v, j + 2, opt_view(target)) == opt_view(target));
                    assert(download_target_scan(v, a.len() as int, opt_view(target)) == opt_view(target));
                }
                j = a.len();
            } else {
                j = j + 2;
            }
        } else if is_lit(x, "-x") || is_lit(x, "--decrypt") || is_lit(x, "-v") || is_lit(x, "-vv")
            || is_lit(x, "--verbose") {
            j = j + 1;
        } else if !flag_like(x) && target.is_none() {
            target = Some(args[j].clone());
            j = j + 1;
        } else {
            j = j + 1;
        }
    }
    DownloadOptions { decrypt, all, out_path, target }
}

/// A target written as a path: starting with `./`, `../` or `/`.
pub open spec fn is_path_like(t: Seq<char>) -> bool {
    has_prefix(t, "./"@) || has_prefix(t, "../"@) || has_prefix(t, "/"@)
}

/// Tells whether a target is written as a path.
pub fn path_like(t: &str) -> (b: bool)
    ensures
        b == is_path_like(t@),
{
    crate::text::str_starts_with(t, "./") || crate::text::str_starts_with(t, "../")
        || crate::text::str_starts_with(t, "/")
}

/// Where a single download is written: inside the output path when it ends with `/` or is
/// a directory, at the output path otherwise; without an output path, at a target written
/// as a path, else in the note directory under the local name.
pub fn download_target_path(
    out_path: Option<&str>,
    out_is_dir: bool,
    raw_target: &str,
    local_name: &str,
    note_dir: &str,
) -> (r: String)
    ensures
        r@ == match out_path {
            Some(o) => if crate::text::has_suffix(o@, "/"@) || out_is_dir {
                crate::path_join_spec(o@, local_name@)
            } else {
                o@
            },
            None => if is_path_like(raw_target@) {
                raw_target@
            } else {
                crate::path_join_spec(note_dir@, local_name@)
            },
        },
{
    match out_path {
        Some(o) => {
            if crate::text::str_ends_with(o, "/") || out_is_dir {
                crate::path_join(o, local_name)
            } else {
                crate::text::owned(o)
            }
        },
        None => {
            if path_like(raw_target) {
                crate::text::owned(raw_target)
            } else {
                crate::path_join(note_dir, local_name)
            }
        },
    }
}

/// The sync command pushes a file as it is (`--raw` or `-u`).
pub fn sync_is_raw(args: &Vec<String>) -> (b: bool)
    ensures
        b == (has_arg_from(views(args@), 0, "--raw"@) || has_arg_from(views(args@), 0, "-u"@)),
{
    crate::args::arg_present(args, 0, "--raw") || crate::args::arg_present(args, 0, "-u")
}

/// An argument of the sync command that names a file: not a flag and not a subcommand word.
pub open spec fn is_sync_path(a: Seq<char>) -> bool {
    !is_flag(a) && a != "sync"@ && a != "list"@ && a != "download"@
}

/// The file that a sync command names: the first argument after the program name that is
/// not a flag nor `sync`, `list` or `download`.
pub fn sync_custom_path(args: &Vec<String>) -> (r: Option<String>)
    ensures
        match r {
            Some(p) => crate::cli::first_from(views(args@), 1, |a: Seq<char>| is_sync_path(a)) matches Some(i)
                && p@ == views(args@)[i],
            None => crate::cli::first_from(views(args@), 1, |a: Seq<char>| is_sync_path(a)) is None,
        },
{
    let a = arg_chars(args);
    let ghost v = views(args@);
    let ghost p = |x: Seq<char>| is_sync_path(x);
    let mut i: usize = 1;
    while i < a.len()
        invariant
            1 <= i,
            v == views(args@),
            char_views(a@) == v,
            a@.len() == args@.len(),
            p == (|x: Seq<char>| is_sync_path(x)),
            crate::cli::first_from(v, 1, p) == crate::cli::first_from(v, i as int, p),
        decreases a.len() - i,
    {
        let x = &a[i];
        if !flag_like(x) && !is_lit(x, "sync") && !is_lit(x, "list") && !is_lit(x, "download") {
            return Some(args[i].clone());
        }
        i = i + 1;
    }
    None
}

/// Names in strictly increasing order (so none twice).
pub open spec fn strictly_sorted(s: Seq<Seq<char>>) -> bool {
    forall|i: int, j: int| 0 <= i < j < s.len() ==> crate::text::seq_lt(#[trigger] s[i], #[trigger] s[j])
}

/// The names sorted and without repeats, as `sort` then `dedup` leave them.
pub fn sorted_unique(names: &Vec<String>) -> (r: Vec<String>)
    ensures
        strictly_sorted(views(r@)),
        forall|x: Seq<char>| views(r@).contains(x) <==> views(names@).contains(x),
{
    let mut r: Vec<String> = Vec::new();
    let mut i: usize = 0;
    while i < names.len()
        invariant
            i <= names.len(),
            strictly_sorted(views(r@)),
            forall|x: Seq<char>| views(r@).contains(x) <==> views(names@).take(i as int).contains(x),
        decreases names.len() - i,
    {
        let key = chars_of(names[i].as_str());
        let ghost pre = views(r@);
        assert(forall|x: Seq<char>| pre.contains(x) <==> views(names@).take(i as int).contains(x));
        let mut p: usize = 0;
        while p < r.len() && crate::text::chars_lt(&chars_of(r[p].as_str()), &key)
            invariant
                p <= r.len(),
                views(r@) == pre,
                i < names.len(),
                key@ == names@[i as int]@,
                forall|j: int| 0 <= j < p ==> crate::text::seq_lt(#[trigger] pre[j], key@),
            decreases r.len() - p,
        {
            p = p + 1;
        }
        let dup = p < r.len() && chars_eq(&chars_of(r[p].as_str()), &key);
        proof {
            assert(views(names@).take(i + 1) =~= views(names@).take(i as int).push(key@));
        }
        if !dup {
            proof {
                if p < pre.len() {
                    crate::text::lemma_seq_lt_total(pre[p as int], key@);
                }
            }
            r.insert(p, names[i].clone());
            proof {
                let post = views(r@);
                assert(post =~= pre.insert(p as int, key@));
                assert forall|a: int, b: int| 0 <= a < b < post.len() implies crate::text::seq_lt(
                    #[trigger] post[a],
                    #[trigger] post[b],
                ) by {
                    if b < p {
                        assert(crate::text::seq_lt(pre[a], pre[b]));
                    } else if b == p {
                    } else if a < p {
                        if b - 1 > p {
                            assert(crate::text::seq_lt(pre[p as int], pre[b - 1]));
                            crate::text::lemma_seq_lt_transitive(key@, pre[p as int], pre[b - 1]);
                        }
                        crate::text::lemma_seq_lt_transitive(pre[a], key@, pre[b - 1]);
                    } else if a == p {
                        if b - 1 > p {
                            assert(crate::text::seq_lt(pre[p as int], pre[b - 1]));
                            crate::text::lemma_seq_lt_transitive(key@, pre[p as int], pre[b - 1]);
                        }
                    } else {
                        assert(crate::text::seq_lt(pre[a - 1], pre[b - 1]));
                    }
                }
                assert forall|x: Seq<char>| post.contains(x) <==> views(names@).take(i + 1).contains(x) by {
                    let t1 = views(names@).take(i + 1);
                    let t0 = views(names@).take(i as int);
                    if post.contains(x) {
                        let k = choose|k: int| 0 <= k < post.len() && post[k] == x;
                        if k == p {
                            assert(t1[i as int] == x);
                        } else {
                            if k < p {
                                assert(pre[k] == x);
                            } else {
                                assert(pre[k - 1] == x);
                            }
                            assert(pre.contains(x));
                            assert(t0.contains(x));
                            let m = choose|m: int| 0 <= m < t0.len() && t0[m] == x;
                            assert(t1[m] == x);
                        }
                    }
                    if t1.contains(x) {
                        let m = choose|m: int| 0 <= m < t1.len() && t1[m] == x;
                        if m == i {
                            assert(post[p as int] == x);
                        } else {
                            assert(t0[m] == x);
                            assert(pre.contains(x));
                            let k = choose|k: int| 0 <= k < pre.len() && pre[k] == x;
                            if k < p {
                                assert(post[k] == x);
                            } else {
                                assert(post[k + 1] == x);
                            }
                        }
                    }
                }
            }
        } else {
            proof {
                assert(pre[p as int] == key@);
                assert forall|x: Seq<char>| pre.contains(x) <==> views(names@).take(i + 1).contains(x) by {
                    let t1 = views(names@).take(i + 1);
                    let t0 = views(names@).take(i as int);
                    if pre.contains(x) {
                        assert(t0 == views(names@).take(i as int));
                        assert(t0.contains(x));
                        let m = choose|m: int| 0 <= m < t0.len() && t0[m] == x;
                        assert(t1[m] == x);
                    }
                    if t1.contains(x) {
                        let m = choose|m: int| 0 <= m < t1.len() && t1[m] == x;
                        if m == i {
                            assert(pre[p as int] == x);
                        } else {
                            assert(t0[m] == x);
                        }
                    }
                }
            }
        }
        i = i + 1;
    }
    assert(views(names@).take(names.len() as int) =~= views(names@));
    r
}

/// The names of `s` that are not in `ex`, in order.
pub open spec fn names_not_in(s: Seq<Seq<char>>, ex: Seq<Seq<char>>) -> Seq<Seq<char>>
    decreases s.len(),
{
    if s.len() == 0 {
        s
    } else if ex.contains(s.last()) {
        names_not_in(s.drop_last(), ex)
    } else {
        names_not_in(s.drop_last(), ex).push(s.last())
    }
}

/// Tells whether `x` is one of `list`.
pub fn contains_name(list: &Vec<String>, x: &str) -> (b: bool)
    ensures
        b == views(list@).contains(x@),
{
    let mut i: usize = 0;
    while i < list.len()
        invariant
            i <= list.len(),
            forall|j: int| 0 <= j < i ==> views(list@)[j] != x@,
        decreases list.len() - i,
    {
        if crate::text::str_eq(list[i].as_str(), x) {
            assert(views(list@)[i as int] == x@);
            return true;
        }
        i = i + 1;
    }
    false
}

/// The names of `names` that are not in `excluded`, in order (the remote files that no
/// local file matches, the local files that no remote file matches).
pub fn names_without(names: &Vec<String>, excluded: &Vec<String>) -> (r: Vec<String>)
    ensures
        views(r@) == names_not_in(views(names@), views(excluded@)),
{
    let ghost ex = views(excluded@);
    let mut r: Vec<String> = Vec::new();
    let mut i: usize = 0;
    assert(views(r@) =~= Seq::<Seq<char>>::empty());
    while i < names.len()
        invariant
            i <= names.len(),
            ex == views(excluded@),
            views(r@) == names_not_in(views(names@).take(i as int), ex),
        decreases names.len() - i,
    {
        assert(views(names@).take(i + 1).drop_last() =~= views(names@).take(i as int));
        if !contains_name(excluded, names[i].as_str()) {
            let ghost before = r@;
            r.push(names[i].clone());
            assert(views(r@) =~= views(before).push(names@[i as int]@));
        }
        i = i + 1;
    }
    assert(views(names@).take(names.len() as int) =~= views(names@));
    r
}

/// The file that a delete target names among the remote files: the target itself when it
/// is one of them, else the file numbered by it (from 1) when it is such a number, else
/// the target.
pub fn resolve_remote_target(target: &str, files: &Vec<String>) -> (r: String)
    ensures
        r@ == if views(files@).contains(target@) {
            target@
        } else {
            match crate::text::parse_usize_spec(target@) {
                Some(n) => if 1 <= n <= files@.len() {
                    files@[n - 1]@
                } else {
                    target@
                },
                None => target@,
            }
        },
{
    if contains_name(files, target) {
        return crate::text::owned(target);
    }
    match crate::text::parse_usize(&chars_of(target)) {
        Some(idx) => {
            if idx > 0 && idx <= files.len() {
                files[idx - 1].clone()
            } else {
                crate::text::owned(target)
            }
        },
        None => crate::text::owned(target),
    }
}

/// `list` with every `old` replaced by `new`.
pub fn rename_in_list(list: &Vec<String>, old: &str, new: &str) -> (r: Vec<String>)
    ensures
        views(r@).len() == list@.len(),
        forall|i: int|
            0 <= i < list@.len() ==> #[trigger] views(r@)[i] == if list@[i]@ == old@ {
                new@
            } else {
                list@[i]@
            },
{
    let mut r: Vec<String> = Vec::new();
    let mut i: usize = 0;
    while i < list.len()
        invariant
            i <= list.len(),
            r@.len() == i,
            forall|j: int|
                0 <= j < i ==> #[trigger] views(r@)[j] == if list@[j]@ == old@ {
                    new@
                } else {
                    list@[j]@
                },
        decreases list.len() - i,
    {
        let ghost before = r@;
        if crate::text::str_eq(list[i].as_str(), old) {
            r.push(crate::text::owned(new));
        } else {
            r.push(list[i].clone());
        }
        assert(views(r@) =~= views(before).push(r@[i as int]@));
        i = i + 1;
    }
    r
}

/// An option of the encryption command that takes the next argument as its value.
pub open spec fn takes_value(a: Seq<char>) -> bool {
    ||| a == "--pass"@ || a == "-P"@ || a == "--password"@ || a == "-p"@
    ||| a == "--id"@ || a == "--key"@
    ||| a == "--iter"@ || a == "--iterations"@
    ||| a == "--out"@ || a == "-o"@
}

/// An argument of the encryption command that asks for the result to be pushed.
pub open spec fn asks_upload(a: Seq<char>) -> bool {
    a == "-u"@ || a == "--upload"@ || a == "-s"@ || a == "--sync"@
}

proof fn lemma_dash_literals()
    ensures
        "-"@ =~= seq!['-'],
        "-u"@ =~= seq!['-', 'u'],
        "-s"@ =~= seq!['-', 's'],
        "--upload"@ =~= seq!['-', '-', 'u', 'p', 'l', 'o', 'a', 'd'],
        "--sync"@ =~= seq!['-', '-', 's', 'y', 'n', 'c'],
{
    reveal_strlit("-");
    reveal_strlit("-u");
    reveal_strlit("-s");
    reveal_strlit("--upload");
    reveal_strlit("--sync");
}

/// The one-element sequence filtered.
proof fn lemma_filter_single(a: Seq<char>, pred: spec_fn(Seq<char>) -> bool)
    ensures
        seq![a].filter(pred) == if pred(a) {
            seq![a]
        } else {
            Seq::<Seq<char>>::empty()
        },
{
    reveal(Seq::filter);
    let e = Seq::<Seq<char>>::empty();
    assert(e.filter(pred) == e);
    assert(seq![a].drop_last() =~= e);
}

/// Every upload flag is a flag.
proof fn lemma_upload_flag_is_flag(a: Seq<char>)
    requires
        asks_upload(a),
    ensures
        is_flag(a),
{
    lemma_dash_literals();
    assert(a.subrange(0, 1) =~= seq!['-']);
}

/// Reading encryption options where no value-taking option occurs: only upload and the
/// files change; upload is asked for exactly by an upload flag, and the files are the
/// arguments that are not flags, in order.
proof fn lemma_encrypt_scan_without_values(args: Seq<Seq<char>>, i: int, st: EncryptScan)
    requires
        0 <= i <= args.len(),
        forall|j: int| i <= j < args.len() ==> !takes_value(#[trigger] args[j]),
    ensures
        encrypt_scan(args, i, st) == (
            st.0,
            st.1,
            st.2,
            st.3,
            st.4 || exists|j: int| i <= j < args.len() && asks_upload(#[trigger] args[j]),
            st.5 + args.subrange(i, args.len() as int).filter(|a: Seq<char>| !is_flag(a)),
        ),
    decreases args.len() - i,
{
    let pred = |a: Seq<char>| !is_flag(a);
    if i == args.len() {
        reveal(Seq::filter);
        assert(args.subrange(i, args.len() as int) =~= Seq::<Seq<char>>::empty());
        assert(st.5 + Seq::<Seq<char>>::empty() =~= st.5);
    } else {
        let a = args[i];
        assert(!takes_value(args[i]));
        lemma_dash_literals();
        let tail = args.subrange(i + 1, args.len() as int);
        assert(args.subrange(i, args.len() as int) =~= seq![a] + tail);
        Seq::filter_distributes_over_add(seq![a], tail, pred);
        lemma_filter_single(a, pred);
        if asks_upload(a) {
            lemma_upload_flag_is_flag(a);
            lemma_encrypt_scan_without_values(args, i + 1, (st.0, st.1, st.2, st.3, true, st.5));
            assert(seq![a].filter(pred) =~= Seq::<Seq<char>>::empty());
        } else {
            if !is_flag(a) {
                lemma_encrypt_scan_without_values(args, i + 1, (st.0, st.1, st.2, st.3, st.4, st.5.push(a)));
                assert(st.5.push(a) + tail.filter(pred) =~= st.5 + (seq![a] + tail.filter(pred)));
            } else {
                lemma_encrypt_scan_without_values(args, i + 1, st);
                assert(seq![a] .filter(pred) =~= Seq::<Seq<char>>::empty());
            }
            assert((exists|j: int| i <= j < args.len() && asks_upload(#[trigger] args[j])) == (exists|j: int|
                i + 1 <= j < args.len() && asks_upload(#[trigger] args[j])));
        }
    }
}

/// The encryption command without a passphrase and without options that take a value:
/// no passphrase, key, iteration count or output path is set; the result is pushed exactly
/// when some argument from the third on is `-u`, `--upload`, `-s` or `--sync`; the files
/// are the arguments from the third on that are not flags, in order.
pub proof fn lemma_encrypt_options_without_values(args: Seq<Seq<char>>)
    requires
        args.len() >= 2,
        forall|j: int| 2 <= j < args.len() ==> !takes_value(#[trigger] args[j]),
    ensures
        encrypt_scan(args, 2, (None, None, None, None, false, Seq::empty())) == (
            None::<Seq<char>>,
            None::<Seq<char>>,
            None::<u64>,
            None::<Seq<char>>,
            exists|j: int| 2 <= j < args.len() && asks_upload(#[trigger] args[j]),
            args.subrange(2, args.len() as int).filter(|a: Seq<char>| !is_flag(a)),
        ),
{
    lemma_encrypt_scan_without_values(args, 2, (None, None, None, None, false, Seq::empty()));
    assert(Seq::<Seq<char>>::empty() + args.subrange(2, args.len() as int).filter(|a: Seq<char>| !is_flag(a))
        =~= args.subrange(2, args.len() as int).filter(|a: Seq<char>| !is_flag(a)));
}

/// The encryption command with one option that takes a value, first among its
/// arguments: that option's field holds the next argument (the iteration count when it
/// reads as a number), the other fields are unset, and upload and the files are read from
/// the arguments after the value.
pub proof fn lemma_encrypt_option_value(args: Seq<Seq<char>>)
    requires
        args.len() >= 4,
        takes_value(args[2]),
        forall|j: int| 4 <= j < args.len() ==> !takes_value(#[trigger] args[j]),
    ensures
        ({
            let r = encrypt_scan(args, 2, (None, None, None, None, false, Seq::empty()));
            let v = args[3];
            let is_pass = args[2] == "--pass"@ || args[2] == "-P"@ || args[2] == "--password"@
                || args[2] == "-p"@;
            let is_key = args[2] == "--id"@ || args[2] == "--key"@;
            let is_iter = args[2] == "--iter"@ || args[2] == "--iterations"@;
            &&& r.0 == if is_pass { Some(v) } else { None }
            &&& r.1 == if is_key { Some(v) } else { None }
            &&& r.2 == if is_iter {
                match parse_u64_spec(v) {
                    Some(n) => Some(n as u64),
                    None => None,
                }
            } else {
                None
            }
            &&& r.3 == if !is_pass && !is_key && !is_iter { Some(v) } else { None }
            &&& r.4 == exists|j: int| 4 <= j < args.len() && asks_upload(#[trigger] args[j])
            &&& r.5 == args.subrange(4, args.len() as int).filter(|a: Seq<char>| !is_flag(a))
        }),
{
    reveal_strlit("--pass");
    reveal_strlit("-P");
    reveal_strlit("--password");
    reveal_strlit("-p");
    reveal_strlit("--id");
    reveal_strlit("--key");
    reveal_strlit("--iter");
    reveal_strlit("--iterations");
    reveal_strlit("--out");
    reveal_strlit("-o");
    let a = args[2];
    let v = args[3];
    let st: EncryptScan = if a == "--pass"@ || a == "-P"@ || a == "--password"@ || a == "-p"@ {
        (Some(v), None, None, None, false, Seq::empty())
    } else if a == "--id"@ || a == "--key"@ {
        (None, Some(v), None, None, false, Seq::empty())
    } else if a == "--iter"@ || a == "--iterations"@ {
        (
            None,
            None,
            match parse_u64_spec(v) {
                Some(n) => Some(n as u64),
                None => None,
            },
            None,
            false,
            Seq::empty(),
        )
    } else {
        (None, None, None, Some(v), false, Seq::empty())
    };
    assert(encrypt_scan(args, 2, (None, None, None, None, false, Seq::empty())) == encrypt_scan(args, 4, st));
    lemma_encrypt_scan_without_values(args, 4, st);
    assert("--pass"@[2] != "--iter"@[2] && "--pass"@[2] != "--id"@[2] && "--pass"@[2] != "--key"@[2]
        && "--pass"@[2] != "--out"@[2] && "--pass"@[2] != "--iterations"@[2]);
    assert("--password"@[2] != "--iter"@[2] && "--password"@[2] != "--id"@[2] && "--password"@[2]
        != "--key"@[2] && "--password"@[2] != "--out"@[2] && "--password"@[2] != "--iterations"@[2]);
    assert("-P"@[1] != "-o"@[1] && "-p"@[1] != "-o"@[1] && "-P"@[1] != "--id"@[1] && "-p"@[1] != "--id"@[1]);
    assert("--id"@[2] != "--key"@[2] && "--id"@[2] != "--out"@[2] && "--key"@[2] != "--out"@[2]);
    assert("--iter"@[2] != "--out"@[2] && "--iterations"@[2] != "--out"@[2] && "--iter"@[2] != "--key"@[2]
        && "--iterations"@[2] != "--key"@[2] && "--iter"@[3] != "--id"@[3] && "--iterations"@[3] != "--id"@[3]);
    assert(Seq::<Seq<char>>::empty() + args.subrange(4, args.len() as int).filter(|a: Seq<char>| !is_flag(a))
        =~= args.subrange(4, args.len() as int).filter(|a: Seq<char>| !is_flag(a)));
}

proof fn lemma_pass_form_scan_from(args: Seq<Seq<char>>, i: int, upload: bool, files: Seq<Seq<char>>)
    requires
        0 <= i <= args.len(),
    ensures
        pass_form_scan(args, i, upload, files) == (
            upload || exists|j: int| i <= j < args.len() && (args[j] == "-s"@ || args[j] == "-u"@),
            files + args.subrange(i, args.len() as int).filter(|a: Seq<char>| !is_flag(a)),
        ),
    decreases args.len() - i,
{
    let pred = |a: Seq<char>| !is_flag(a);
    if i == args.len() {
        reveal(Seq::filter);
        assert(args.subrange(i, args.len() as int) =~= Seq::<Seq<char>>::empty());
        assert(files + Seq::<Seq<char>>::empty() =~= files);
    } else {
        let a = args[i];
        lemma_dash_literals();
        let tail = args.subrange(i + 1, args.len() as int);
        assert(args.subrange(i, args.len() as int) =~= seq![a] + tail);
        Seq::filter_distributes_over_add(seq![a], tail, pred);
        lemma_filter_single(a, pred);
        if a == "-s"@ || a == "-u"@ {
            lemma_upload_flag_is_flag(a);
            lemma_pass_form_scan_from(args, i + 1, true, files);
            assert(seq![a].filter(pred) =~= Seq::<Seq<char>>::empty());
        } else {
            if !is_flag(a) {
                lemma_pass_form_scan_from(args, i + 1, upload, files.push(a));
                assert(files.push(a) + tail.filter(pred) =~= files + (seq![a] + tail.filter(pred)));
            } else {
                lemma_pass_form_scan_from(args, i + 1, upload, files);
                assert(seq![a].filter(pred) =~= Seq::<Seq<char>>::empty());
            }
            assert((exists|j: int| i <= j < args.len() && (args[j] == "-s"@ || args[j] == "-u"@)) == (exists|j: int|
                i + 1 <= j < args.len() && (args[j] == "-s"@ || args[j] == "-u"@)));
        }
    }
}

/// The passphrase form of the encryption command: the result is pushed exactly when some
/// argument from the fourth on is `-s` or `-u`; the files are the arguments from the
/// fourth on that are not flags, in order.
pub proof fn lemma_pass_form_options(args: Seq<Seq<char>>)
    requires
        args.len() >= 3,
    ensures
        pass_form_scan(args, 3, false, Seq::empty()) == (
            exists|j: int| 3 <= j < args.len() && (args[j] == "-s"@ || args[j] == "-u"@),
            args.subrange(3, args.len() as int).filter(|a: Seq<char>| !is_flag(a)),
        ),
{
    lemma_pass_form_scan_from(args, 3, false, Seq::empty());
    assert(Seq::<Seq<char>>::empty() + args.subrange(3, args.len() as int).filter(|a: Seq<char>| !is_flag(a))
        =~= args.subrange(3, args.len() as int).filter(|a: Seq<char>| !is_flag(a)));
}

} // verus!
