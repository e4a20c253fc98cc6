use vstd::prelude::*;

use crate::args::{has_arg_from, is_flag, tail_from};
use crate::text::{
    chars_of, concat, contains_chars, contains_seq, has_prefix, has_suffix, join_from, join_spec,
    owned, parse_usize, parse_usize_spec, str_ends_with, str_eq, str_starts_with, string_of_range,
    sub_chars, trim_end_spec, trim_end_str, views,
};

verus! {

/// The character sequences of character vectors.
pub open spec fn char_views(a: Seq<Vec<char>>) -> Seq<Seq<char>> {
    a.map_values(|x: Vec<char>| x@)
}

/// What a line-removal request removed.
pub enum LineRemoval {
    /// Lines `min..=max` counted from the end (1 = last line); `removed` lines went.
    Range { min: usize, max: usize, removed: usize },
    /// Line `k` counted from the end, whose text was `text`.
    Single { k: usize, text: String },
    /// `removed` lines that held the keyword.
    Keyword { removed: usize },
}

/// Why a line-removal request removed nothing.
pub enum LineRemovalError {
    /// The document has no lines.
    EmptyDocument,
    /// Line numbers count from 1.
    ZeroIndex,
    /// The range lies outside the document (`total` lines).
    RangeOutOfBounds { total: usize },
    /// The document has only `total` lines, fewer than `k`.
    BeyondEnd { total: usize, k: usize },
    /// No line holds the keyword.
    KeywordNotFound,
}

/// The single position of `-` in `t`, when `t` holds exactly one.
pub open spec fn single_dash_at(t: Seq<char>, i: int) -> bool {
    0 <= i < t.len() && t[i] == '-' && forall|j: int| 0 <= j < t.len() && j != i ==> t[j] != '-'
}

/// `t` reads as a range `a-b`: exactly one `-`, with a decimal number on each side.
pub open spec fn is_range_expr(t: Seq<char>) -> bool {
    exists|i: int|
        single_dash_at(t, i) && parse_usize_spec(t.subrange(0, i)) is Some && parse_usize_spec(
            t.subrange(i + 1, t.len() as int),
        ) is Some
}

/// The two numbers of a range expression.
pub open spec fn range_bounds(t: Seq<char>) -> (nat, nat) {
    let i = choose|i: int| single_dash_at(t, i);
    (
        parse_usize_spec(t.subrange(0, i))->0,
        parse_usize_spec(t.subrange(i + 1, t.len() as int))->0,
    )
}

/// The lines of `lines` that do not hold `kw`, in order.
pub open spec fn lines_without(lines: Seq<Seq<char>>, kw: Seq<char>) -> Seq<Seq<char>>
    decreases lines.len(),
{
    if lines.len() == 0 {
        lines
    } else if contains_seq(lines.last(), kw) {
        lines_without(lines.drop_last(), kw)
    } else {
        lines_without(lines.drop_last(), kw).push(lines.last())
    }
}

/// Where a range `lo..=hi` counted from the end starts and ends (as indexes from the
/// start) in a document of `total` lines: a bound beyond the document is clamped to its
/// first line.
pub open spec fn range_start(total: nat, hi: nat) -> int {
    if hi >= total {
        0
    } else {
        total - hi
    }
}

pub open spec fn range_end(total: nat, lo: nat) -> int {
    if lo > total {
        0
    } else {
        total - lo
    }
}

/// Finds the single `-` of `t`, if `t` holds exactly one.
fn find_single_dash(t: &Vec<char>) -> (r: Option<usize>)
    ensures
        match r {
            Some(i) => single_dash_at(t@, i as int),
            None => forall|i: int| !single_dash_at(t@, i),
        },
{
    let mut found: Option<usize> = None;
    let mut i: usize = 0;
    while i < t.len()
        invariant
            i <= t.len(),
            match found {
                Some(p) => p < i && t@[p as int] == '-' && forall|j: int|
                    0 <= j < i && j != p ==> t@[j] != '-',
                None => forall|j: int| 0 <= j < i ==> t@[j] != '-',
            },
        decreases t.len() - i,
    {
        if t[i] == '-' {
            match found {
                Some(p) => {
                    assert(!single_dash_at(t@, p as int));
                    assert forall|k: int| !single_dash_at(t@, k) by {
                        if single_dash_at(t@, k) {
                            assert(k == p || k == i);
                        }
                    }
                    return None;
                },
                None => {
                    found = Some(i);
                },
            }
        }
        i = i + 1;
    }
    match found {
        Some(p) => Some(p),
        None => {
            assert forall|k: int| !single_dash_at(t@, k) by {}
            None
        },
    }
}

/// Reads `t` as a range expression `a-b`.
fn parse_range(t: &Vec<char>) -> (r: Option<(usize, usize)>)
    ensures
        r is Some <==> is_range_expr(t@),
        r matches Some((a, b)) ==> (a as nat, b as nat) == range_bounds(t@),
{
    match find_single_dash(t) {
        None => {
            assert(!is_range_expr(t@));
            None
        },
        Some(i) => {
            assert(single_dash_at(t@, i as int));
            let n: usize = t.len();
            assert(i < n);
            let left = sub_chars(t, 0, i);
            let right = sub_chars(t, i + 1, n);
            proof {
                assert forall|k: int| single_dash_at(t@, k) implies k == i by {}
            }
            match (parse_usize(&left), parse_usize(&right)) {
                (Some(a), Some(b)) => Some((a, b)),
                _ => None,
            }
        },
    }
}

/// Appends `src[from..to]` to `out`.
fn push_range(out: &mut Vec<String>, src: &Vec<String>, from: usize, to: usize)
    requires
        from <= to <= src.len(),
    ensures
        views(final(out)@) == views(old(out)@) + views(src@).subrange(from as int, to as int),
{
    let ghost start = views(out@);
    let mut k: usize = from;
    while k < to
        invariant
            from <= k <= to <= src.len(),
            views(out@) == start + views(src@).subrange(from as int, k as int),
        decreases to - k,
    {
        let ghost before = out@;
        out.push(src[k].clone());
        assert(views(out@) =~= views(before).push(src@[k as int]@));
        k = k + 1;
        assert(views(out@) =~= start + views(src@).subrange(from as int, k as int));
    }
}

/// Removes lines from a document as the line-removal command asks: `a-b` removes the
/// lines from the `a`-th to the `b`-th counted from the end (either order), a number `k`
/// removes the `k`-th line from the end, anything else removes every line that holds it.
pub fn remove_lines(lines: Vec<String>, target: &str) -> (r: Result<
    (Vec<String>, LineRemoval),
    LineRemovalError,
>)
    ensures
        ({
            let l = views(lines@);
            let total = l.len();
            let t = target@;
            if total == 0 {
                r matches Err(LineRemovalError::EmptyDocument)
            } else if is_range_expr(t) {
                let (a, b) = range_bounds(t);
                let lo = if a <= b { a } else { b };
                let hi = if a <= b { b } else { a };
                if lo == 0 {
                    r matches Err(LineRemovalError::ZeroIndex)
                } else {
                    let s = range_start(total, hi);
                    let e = range_end(total, lo);
                    r matches Ok((kept, LineRemoval::Range { min, max, removed })) && min == lo
                        && max == hi && removed == e - s + 1 && views(kept@) == l.subrange(0, s)
                        + l.subrange(e + 1, total as int)
                }
            } else {
                match parse_usize_spec(t) {
                    Some(k) => if k == 0 {
                        r matches Err(LineRemovalError::ZeroIndex)
                    } else if k > total {
                        r matches Err(LineRemovalError::BeyondEnd { total: tt, k: kk }) && tt
                            == total && kk == k
                    } else {
                        r matches Ok((kept, LineRemoval::Single { k: kk, text })) && kk == k
                            && text@ == l[total - k] && views(kept@) == l.remove(total - k)
                    },
                    None => {
                        let rest = lines_without(l, t);
                        if rest.len() == total {
                            r matches Err(LineRemovalError::KeywordNotFound)
                        } else {
                            r matches Ok((kept, LineRemoval::Keyword { removed })) && views(
                                kept@,
                            ) == rest && removed == total - rest.len()
                        }
                    },
                }
            }
        }),
{
    let total: usize = lines.len();
    if total == 0 {
        return Err(LineRemovalError::EmptyDocument);
    }
    let t = chars_of(target);
    match parse_range(&t) {
        Some((a, b)) => {
            let lo: usize = if a <= b { a } else { b };
            let hi: usize = if a <= b { b } else { a };
            if lo == 0 {
                return Err(LineRemovalError::ZeroIndex);
            }
            let start: usize = if hi >= total { 0 } else { total - hi };
            let end: usize = if lo > total { 0 } else { total - lo };
            if start <= end && start < total {
                let removed: usize = if end - start + 1 < total { end - start + 1 } else { total };
                let mut kept: Vec<String> = Vec::new();
                assert(views(kept@) =~= Seq::<Seq<char>>::empty());
                push_range(&mut kept, &lines, 0, start);
                push_range(&mut kept, &lines, end + 1, total);
                Ok((kept, LineRemoval::Range { min: lo, max: hi, removed }))
            } else {
                Err(LineRemovalError::RangeOutOfBounds { total })
            }
        },
        None => match parse_usize(&t) {
            Some(k) => {
                if k == 0 {
                    Err(LineRemovalError::ZeroIndex)
                } else if k > total {
                    Err(LineRemovalError::BeyondEnd { total, k })
                } else {
                    let mut kept = lines;
                    let ghost before = kept@;
                    let text = kept.remove(total - k);
                    assert(views(kept@) =~= views(before).remove(total - k));
                    Ok((kept, LineRemoval::Single { k, text }))
                }
            },
            None => {
                let ghost l = views(lines@);
                let mut kept: Vec<String> = Vec::new();
                let mut i: usize = 0;
                while i < lines.len()
                    invariant
                        i <= lines.len(),
                        l == views(lines@),
                        t@ == target@,
                        views(kept@) == lines_without(l.take(i as int), target@),
                        kept@.len() <= i,
                    decreases lines.len() - i,
                {
                    assert(l.take(i + 1).drop_last() =~= l.take(i as int));
                    let line = chars_of(lines[i].as_str());
                    if !contains_chars(&line, &t) {
                        let ghost before = kept@;
                        kept.push(lines[i].clone());
                        assert(views(kept@) =~= views(before).push(l[i as int]));
                    }
                    i = i + 1;
                }
                assert(l.take(lines.len() as int) =~= l);
                if kept.len() == total {
                    Err(LineRemovalError::KeywordNotFound)
                } else {
                    let removed: usize = total - kept.len();
                    Ok((kept, LineRemoval::Keyword { removed }))
                }
            },
        },
    }
}

/// What the command line asks the tool to do.
#[derive(Clone, Copy, Debug, PartialEq, Eq, Structural)]
pub enum MainCommand {
    /// Run the setup wizard (`-i` alone).
    Init,
    /// `-i` was combined with other arguments, which is refused.
    InitConflict,
    /// Print the usage text.
    Help,
    /// No arguments and no piped input: show the overview (or the wizard when unset).
    Overview,
    /// A retired long option, at this argument index.
    DeprecatedLongFlag(usize),
    /// Start the web interface, on the port given at this argument index if any.
    Web(Option<usize>),
    /// Remove lines from this year's note.
    RemoveLines,
    /// Rename a file.
    Rename,
    /// Delete files locally and remotely.
    Delete,
    /// Create a new file.
    New,
    /// TOTP codes.
    Totp,
    /// Push every local file to the Gist (`raw`: without encryption).
    SyncAll { raw: bool },
    /// Pull every Gist file (`decrypt`: decrypting them).
    DownloadAll { decrypt: bool },
    /// Explain the batch flags.
    BatchHelp,
    /// Push this year's note (`raw`: as it is).
    YearSync { raw: bool },
    /// Show this year's note.
    ShowYear,
    /// Show the document named at this argument index.
    ShowTarget(usize),
    /// Encrypt files.
    Encrypt,
    /// Download a file.
    Download,
    /// Decrypt files.
    Decrypt,
    /// Print the key ledger.
    Ledger,
    /// Push, then list.
    SyncThenList,
    /// Push a file.
    Sync,
    /// List the files.
    List,
    /// Append the arguments to this year's note; piped input is appended too, also when no
    /// argument follows the program name.
    AppendNote,
    /// The first argument is not understood.
    Unknown,
}

/// The first index at or after `from` whose argument satisfies `p`.
pub open spec fn first_from(args: Seq<Seq<char>>, from: int, p: spec_fn(Seq<char>) -> bool) -> Option<int>
    decreases args.len() - from,
{
    if from < 0 || from >= args.len() {
        None
    } else if p(args[from]) {
        Some(from)
    } else {
        first_from(args, from + 1, p)
    }
}

/// A short flag argument: `-` but not `--`.
pub open spec fn is_short_flag(a: Seq<char>) -> bool {
    has_prefix(a, "-"@) && !has_prefix(a, "--"@)
}

/// A line-removal argument written with its number attached, as `-r3` or `-r1-5`.
pub open spec fn is_attached_removal(a: Seq<char>) -> bool {
    has_prefix(a, "-r"@) && a.len() > 2 && crate::text::is_digit(a[2])
}

/// The flag letters that argument `a` contributes.
pub open spec fn contributes_flag(a: Seq<char>, c: char) -> bool {
    ||| (a == "--web"@ && c == 'w')
    ||| (a == "--all"@ && c == 'a')
    ||| (a == "--sync"@ && c == 's')
    ||| (a == "--list"@ && c == 'l')
    ||| (is_short_flag(a) && is_attached_removal(a) && c == 'r')
    ||| (is_short_flag(a) && !is_attached_removal(a) && exists|j: int|
        1 <= j < a.len() && a[j] == c)
}

/// Some argument after the program name contributes flag letter `c`.
pub open spec fn has_flag(args: Seq<Seq<char>>, c: char) -> bool {
    exists|i: int| 1 <= i < args.len() && contributes_flag(#[trigger] args[i], c)
}

/// An argument that asks for the setup wizard.
pub open spec fn asks_init(a: Seq<char>) -> bool {
    ||| a == "-i"@
    ||| a == "--init"@
    ||| (is_short_flag(a) && exists|j: int| 0 <= j < a.len() && a[j] == 'i')
}

/// An argument that asks for verbose output.
pub open spec fn is_verbose_arg(a: Seq<char>) -> bool {
    a == "-v"@ || a == "-vv"@ || a == "--verbose"@
}

/// A long option that is no longer accepted: every one but `--web`, `--verbose`, `--all`,
/// `--sync`, `--list` and `--raw`.
pub open spec fn is_retired_long(a: Seq<char>) -> bool {
    has_prefix(a, "--"@) && a != "--web"@ && a != "--verbose"@ && a != "--all"@ && a != "--sync"@
        && a != "--list"@ && a != "--raw"@
}

/// An argument made only of ASCII digits (the empty argument counts).
pub open spec fn all_digits(a: Seq<char>) -> bool {
    forall|j: int| 0 <= j < a.len() ==> crate::text::is_digit(#[trigger] a[j])
}

/// The command that a command line asks for.
pub open spec fn main_command_spec(args: Seq<Seq<char>>, has_pipe: bool) -> MainCommand {
    let verbose = exists|i: int| 0 <= i < args.len() && is_verbose_arg(#[trigger] args[i]);
    if exists|i: int| 1 <= i < args.len() && asks_init(#[trigger] args[i]) {
        if args.len() == 2 && args[1] == "-i"@ {
            MainCommand::Init
        } else {
            MainCommand::InitConflict
        }
    } else if args.len() >= 2 && (args[1] == "help"@ || args[1] == "-h"@ || args[1] == "--help"@) {
        MainCommand::Help
    } else if args.len() < 2 && !has_pipe {
        MainCommand::Overview
    } else if first_from(args, 1, |a: Seq<char>| is_retired_long(a)) is Some {
        MainCommand::DeprecatedLongFlag(first_from(args, 1, |a: Seq<char>| is_retired_long(a))->0 as usize)
    } else if has_flag(args, 'w') || has_arg_from(args, 1, "--web"@) {
        MainCommand::Web(
            match first_from(args, 1, |a: Seq<char>| all_digits(a)) {
                Some(i) => Some(i as usize),
                None => None,
            },
        )
    } else if exists|i: int| 1 <= i < args.len() && has_prefix(#[trigger] args[i], "-r"@) {
        MainCommand::RemoveLines
    } else if has_flag(args, 'm') {
        MainCommand::Rename
    } else if has_flag(args, 'f') && !has_flag(args, 't') {
        MainCommand::Delete
    } else if has_flag(args, 'n') {
        MainCommand::New
    } else if has_flag(args, 't') {
        MainCommand::Totp
    } else if has_flag(args, 'b') {
        if has_flag(args, 's') {
            MainCommand::SyncAll { raw: has_flag(args, 'u') }
        } else if has_flag(args, 'd') {
            MainCommand::DownloadAll { decrypt: has_flag(args, 'x') }
        } else {
            MainCommand::BatchHelp
        }
    } else if has_flag(args, 'a') {
        if has_flag(args, 's') {
            MainCommand::YearSync { raw: has_flag(args, 'u') }
        } else if args.len() == 2 || (args.len() == 3 && verbose) {
            MainCommand::ShowYear
        } else {
            MainCommand::ShowTarget(
                match first_from(args, 2, |a: Seq<char>| !is_verbose_arg(a)) {
                    Some(i) => i as usize,
                    None => 1,
                },
            )
        }
    } else if has_flag(args, 'p') || has_flag(args, 'e') {
        MainCommand::Encrypt
    } else if has_flag(args, 'd') {
        MainCommand::Download
    } else if has_flag(args, 'x') {
        MainCommand::Decrypt
    } else if has_flag(args, 'k') {
        MainCommand::Ledger
    } else if has_flag(args, 's') && has_flag(args, 'l') {
        MainCommand::SyncThenList
    } else if has_flag(args, 's') {
        MainCommand::Sync
    } else if has_flag(args, 'l') {
        MainCommand::List
    } else if has_pipe || !is_flag(args[1]) {
        MainCommand::AppendNote
    } else {
        MainCommand::Unknown
    }
}

/// The characters of each argument.
pub fn arg_chars(args: &Vec<String>) -> (r: Vec<Vec<char>>)
    ensures
        char_views(r@) == views(args@),
        r@.len() == args@.len(),
{
    let mut r: Vec<Vec<char>> = Vec::new();
    let mut i: usize = 0;
    while i < args.len()
        invariant
            i <= args.len(),
            char_views(r@) == views(args@).take(i as int),
        decreases args.len() - i,
    {
        let ghost before = r@;
        r.push(chars_of(args[i].as_str()));
        assert(char_views(r@) =~= char_views(before).push(
            args@[i as int]@,
        ));
        i = i + 1;
        assert(views(args@).take(i as int) =~= views(args@).take(i - 1).push(args@[i - 1]@));
    }
    assert(views(args@).take(args.len() as int) =~= views(args@));
    r
}

fn lit_eq(a: &Vec<char>, lit: &str) -> (b: bool)
    ensures
        b == (a@ == lit@),
{
    crate::text::chars_eq(a, &chars_of(lit))
}

fn lit_prefix(a: &Vec<char>, lit: &str) -> (b: bool)
    ensures
        b == has_prefix(a@, lit@),
{
    crate::text::starts_with_chars(a, &chars_of(lit))
}

fn char_in(a: &Vec<char>, from: usize, c: char) -> (b: bool)
    ensures
        b == exists|j: int| from <= j < a@.len() && a@[j] == c,
{
    let mut j: usize = from;
    while j < a.len()
        invariant
            forall|k: int| from <= k < j && k < a@.len() ==> a@[k] != c,
            from <= j || a.len() <= j,
        decreases a.len() - j,
    {
        if a[j] == c {
            return true;
        }
        j = j + 1;
    }
    false
}

fn short_flag(a: &Vec<char>) -> (b: bool)
    ensures
        b == is_short_flag(a@),
{
    lit_prefix(a, "-") && !lit_prefix(a, "--")
}

fn attached_removal(a: &Vec<char>) -> (b: bool)
    ensures
        b == is_attached_removal(a@),
{
    lit_prefix(a, "-r") && a.len() > 2 && '0' <= a[2] && a[2] <= '9'
}

fn contributes(a: &Vec<char>, c: char) -> (b: bool)
    ensures
        b == contributes_flag(a@, c),
{
    if (lit_eq(a, "--web") && c == 'w') || (lit_eq(a, "--all") && c == 'a') || (lit_eq(a, "--sync")
        && c == 's') || (lit_eq(a, "--list") && c == 'l') {
        return true;
    }
    if short_flag(a) {
        if attached_removal(a) {
            c == 'r'
        } else {
            char_in(a, 1, c)
        }
    } else {
        false
    }
}

fn flag_set_has(args: &Vec<Vec<char>>, c: char) -> (b: bool)
    ensures
        b == has_flag(char_views(args@), c),
{
    let ghost v = char_views(args@);
    let mut i: usize = 1;
    while i < args.len()
        invariant
            1 <= i,
            v == char_views(args@),
            forall|k: int| 1 <= k < i && k < v.len() ==> !contributes_flag(#[trigger] v[k], c),
        decreases args.len() - i,
    {
        if contributes(&args[i], c) {
            assert(contributes_flag(v[i as int], c));
            return true;
        }
        i = i + 1;
    }
    false
}

fn any_from(args: &Vec<Vec<char>>, from: usize, lit: &str) -> (b: bool)
    ensures
        b == has_arg_from(char_views(args@), from as int, lit@),
{
    let ghost v = char_views(args@);
    let mut i: usize = from;
    while i < args.len()
        invariant
            v == char_views(args@),
            from <= i || args.len() <= i,
            forall|k: int| from <= k < i && k < v.len() ==> #[trigger] v[k] != lit@,
        decreases args.len() - i,
    {
        if lit_eq(&args[i], lit) {
            assert(v[i as int] == lit@);
            return true;
        }
        i = i + 1;
    }
    false
}

fn verbose_arg(a: &Vec<char>) -> (b: bool)
    ensures
        b == is_verbose_arg(a@),
{
    lit_eq(a, "-v") || lit_eq(a, "-vv") || lit_eq(a, "--verbose")
}

fn init_arg(a: &Vec<char>) -> (b: bool)
    ensures
        b == asks_init(a@),
{
    lit_eq(a, "-i") || lit_eq(a, "--init") || (short_flag(a) && char_in(a, 0, 'i'))
}

fn retired_long(a: &Vec<char>) -> (b: bool)
    ensures
        b == is_retired_long(a@),
{
    lit_prefix(a, "--") && !lit_eq(a, "--web") && !lit_eq(a, "--verbose") && !lit_eq(a, "--all")
        && !lit_eq(a, "--sync") && !lit_eq(a, "--list") && !lit_eq(a, "--raw")
}

fn digits_only(a: &Vec<char>) -> (b: bool)
    ensures
        b == all_digits(a@),
{
    let mut j: usize = 0;
    while j < a.len()
        invariant
            j <= a.len(),
            forall|k: int| 0 <= k < j ==> crate::text::is_digit(#[trigger] a@[k]),
        decreases a.len() - j,
    {
        if !('0' <= a[j] && a[j] <= '9') {
            assert(!crate::text::is_digit(a@[j as int]));
            return false;
        }
        j = j + 1;
    }
    true
}

fn first_retired(args: &Vec<Vec<char>>) -> (r: Option<usize>)
    ensures
        match r {
            Some(i) => first_from(char_views(args@), 1, |a: Seq<char>| is_retired_long(a)) == Some(i as int),
            None => first_from(char_views(args@), 1, |a: Seq<char>| is_retired_long(a)) is None,
        },
{
    let ghost v = char_views(args@);
    let ghost p = |a: Seq<char>| is_retired_long(a);
    let mut i: usize = 1;
    while i < args.len()
        invariant
            1 <= i,
            v == char_views(args@),
            p == (|a: Seq<char>| is_retired_long(a)),
            first_from(v, 1, p) == first_from(v, i as int, p),
        decreases args.len() - i,
    {
        if retired_long(&args[i]) {
            return Some(i);
        }
        i = i + 1;
    }
    None
}

fn first_digits(args: &Vec<Vec<char>>) -> (r: Option<usize>)
    ensures
        match r {
            Some(i) => first_from(char_views(args@), 1, |a: Seq<char>| all_digits(a)) == Some(i as int),
            None => first_from(char_views(args@), 1, |a: Seq<char>| all_digits(a)) is None,
        },
{
    let ghost v = char_views(args@);
    let ghost p = |a: Seq<char>| all_digits(a);
    let mut i: usize = 1;
    while i < args.len()
        invariant
            1 <= i,
            v == char_views(args@),
            p == (|a: Seq<char>| all_digits(a)),
            first_from(v, 1, p) == first_from(v, i as int, p),
        decreases args.len() - i,
    {
        if digits_only(&args[i]) {
            return Some(i);
        }
        i = i + 1;
    }
    None
}

fn first_not_verbose(args: &Vec<Vec<char>>) -> (r: Option<usize>)
    ensures
        match r {
            Some(i) => first_from(char_views(args@), 2, |a: Seq<char>| !is_verbose_arg(a)) == Some(i as int),
            None => first_from(char_views(args@), 2, |a: Seq<char>| !is_verbose_arg(a)) is None,
        },
{
    let ghost v = char_views(args@);
    let ghost p = |a: Seq<char>| !is_verbose_arg(a);
    let mut i: usize = 2;
    while i < args.len()
        invariant
            2 <= i,
            v == char_views(args@),
            p == (|a: Seq<char>| !is_verbose_arg(a)),
            first_from(v, 2, p) == first_from(v, i as int, p),
        decreases args.len() - i,
    {
        if !verbose_arg(&args[i]) {
            return Some(i);
        }
        i = i + 1;
    }
    None
}

fn any_init(args: &Vec<Vec<char>>) -> (b: bool)
    ensures
        b == exists|i: int| 1 <= i < args@.len() && asks_init(#[trigger] char_views(args@)[i]),
{
    let ghost v = char_views(args@);
    let mut i: usize = 1;
    while i < args.len()
        invariant
            1 <= i,
            v == char_views(args@),
            forall|k: int| 1 <= k < i && k < v.len() ==> !asks_init(#[trigger] v[k]),
        decreases args.len() - i,
    {
        if init_arg(&args[i]) {
            assert(asks_init(v[i as int]));
            return true;
        }
        i = i + 1;
    }
    false
}

fn any_verbose(args: &Vec<Vec<char>>) -> (b: bool)
    ensures
        b == exists|i: int| 0 <= i < args@.len() && is_verbose_arg(#[trigger] char_views(args@)[i]),
{
    let ghost v = char_views(args@);
    let mut i: usize = 0;
    while i < args.len()
        invariant
            v == char_views(args@),
            i <= args.len(),
            forall|k: int| 0 <= k < i ==> !is_verbose_arg(#[trigger] v[k]),
        decreases args.len() - i,
    {
        if verbose_arg(&args[i]) {
            assert(is_verbose_arg(v[i as int]));
            return true;
        }
        i = i + 1;
    }
    false
}

fn any_removal(args: &Vec<Vec<char>>) -> (b: bool)
    ensures
        b == exists|i: int| 1 <= i < args@.len() && has_prefix(#[trigger] char_views(args@)[i], "-r"@),
{
    let ghost v = char_views(args@);
    let mut i: usize = 1;
    while i < args.len()
        invariant
            1 <= i,
            v == char_views(args@),
            forall|k: int| 1 <= k < i && k < v.len() ==> !has_prefix(#[trigger] v[k], "-r"@),
        decreases args.len() - i,
    {
        if lit_prefix(&args[i], "-r") {
            assert(has_prefix(v[i as int], "-r"@));
            return true;
        }
        i = i + 1;
    }
    false
}

/// Decides what a command line (`args[0]` is the program name) asks for, in the order
/// the tool checks: setup, help, overview, retired options, web, line removal, then the
/// flag letters, and finally a note to append.
pub fn main_command(args: &Vec<String>, has_pipe: bool) -> (c: MainCommand)
    ensures
        c == main_command_spec(views(args@), has_pipe),
{
    let a = arg_chars(args);
    let ghost v = views(args@);
    assert(char_views(a@) == v);
    if any_init(&a) {
        if a.len() == 2 && lit_eq(&a[1], "-i") {
            return MainCommand::Init;
        } else {
            return MainCommand::InitConflict;
        }
    }
    if a.len() >= 2 && (lit_eq(&a[1], "help") || lit_eq(&a[1], "-h") || lit_eq(&a[1], "--help")) {
        return MainCommand::Help;
    }
    if a.len() < 2 && !has_pipe {
        return MainCommand::Overview;
    }
    match first_retired(&a) {
        Some(i) => {
            return MainCommand::DeprecatedLongFlag(i);
        },
        None => {},
    }
    if flag_set_has(&a, 'w') || any_from(&a, 1, "--web") {
        return MainCommand::Web(first_digits(&a));
    }
    if any_removal(&a) {
        return MainCommand::RemoveLines;
    }
    if flag_set_has(&a, 'm') {
        return MainCommand::Rename;
    }
    if flag_set_has(&a, 'f') && !flag_set_has(&a, 't') {
        return MainCommand::Delete;
    }
    if flag_set_has(&a, 'n') {
        return MainCommand::New;
    }
    if flag_set_has(&a, 't') {
        return MainCommand::Totp;
    }
    if flag_set_has(&a, 'b') {
        if flag_set_has(&a, 's') {
            return MainCommand::SyncAll { raw: flag_set_has(&a, 'u') };
        } else if flag_set_has(&a, 'd') {
            return MainCommand::DownloadAll { decrypt: flag_set_has(&a, 'x') };
        } else {
            return MainCommand::BatchHelp;
        }
    }
    if flag_set_has(&a, 'a') {
        if flag_set_has(&a, 's') {
            return MainCommand::YearSync { raw: flag_set_has(&a, 'u') };
        } else if a.len() == 2 || (a.len() == 3 && any_verbose(&a)) {
            return MainCommand::ShowYear;
        } else {
            return MainCommand::ShowTarget(
                match first_not_verbose(&a) {
                    Some(i) => i,
                    None => 1,
                },
            );
        }
    }
    if flag_set_has(&a, 'p') || flag_set_has(&a, 'e') {
        return MainCommand::Encrypt;
    }
    if flag_set_has(&a, 'd') {
        return MainCommand::Download;
    }
    if flag_set_has(&a, 'x') {
        return MainCommand::Decrypt;
    }
    if flag_set_has(&a, 'k') {
        return MainCommand::Ledger;
    }
    let has_s = flag_set_has(&a, 's');
    let has_l = flag_set_has(&a, 'l');
    if has_s && has_l {
        return MainCommand::SyncThenList;
    }
    if has_s {
        return MainCommand::Sync;
    }
    if has_l {
        return MainCommand::List;
    }
    if has_pipe || !lit_prefix(&a[1], "-") {
        MainCommand::AppendNote
    } else {
        MainCommand::Unknown
    }
}

/// The argument that names the lines to remove: the one after a separate `-r` in first
/// position, else what follows `-r` in the first argument that starts with it; `None` when
/// a separate `-r` has nothing after it.
pub fn removal_target(args: &Vec<String>) -> (r: Option<String>)
    requires
        exists|i: int| 1 <= i < args@.len() && has_prefix(#[trigger] views(args@)[i], "-r"@),
    ensures
        ({
            let v = views(args@);
            if v.len() > 1 && v[1] == "-r"@ {
                if v.len() < 3 {
                    r is None
                } else {
                    r matches Some(t) && t@ == v[2]
                }
            } else {
                let i = first_from(v, 1, |a: Seq<char>| has_prefix(a, "-r"@))->0;
                r matches Some(t) && t@ == v[i].skip(2)
            }
        }),
{
    let a = arg_chars(args);
    let ghost v = views(args@);
    if a.len() > 1 && lit_eq(&a[1], "-r") {
        if a.len() < 3 {
            None
        } else {
            Some(args[2].clone())
        }
    } else {
        let ghost p = |x: Seq<char>| has_prefix(x, "-r"@);
        let mut i: usize = 1;
        proof {
            let w = choose|w: int| 1 <= w < args@.len() && has_prefix(#[trigger] views(args@)[w], "-r"@);
            lemma_first_from_found(v, 1, p, w);
        }
        while i < a.len() && !lit_prefix(&a[i], "-r")
            invariant
                1 <= i,
                v == views(args@),
                char_views(a@) == v,
                p == (|x: Seq<char>| has_prefix(x, "-r"@)),
                first_from(v, 1, p) == first_from(v, i as int, p),
                first_from(v, 1, p) is Some,
            decreases a.len() - i,
        {
            i = i + 1;
        }
        assert(i < a.len());
        proof {
            reveal_strlit("-r");
        }
        Some(string_of_range(&a[i], 2, a[i].len()))
    }
}

/// When some argument from `from` on satisfies `p`, the first one is found.
proof fn lemma_first_from_found(args: Seq<Seq<char>>, from: int, p: spec_fn(Seq<char>) -> bool, w: int)
    requires
        0 <= from <= w < args.len(),
        p(args[w]),
    ensures
        first_from(args, from, p) is Some,
    decreases w - from,
{
    if !p(args[from]) {
        lemma_first_from_found(args, from + 1, p, w);
    }
}

/// The note to append: the arguments after the program name joined by spaces; with piped
/// input, that input without trailing White_Space, after the argument line when the first
/// argument is not a flag.
pub fn compose_note(args: &Vec<String>, has_pipe: bool, piped: &str) -> (r: String)
    requires
        args.len() >= 1,
    ensures
        r@ == if has_pipe {
            if args.len() > 1 && !is_flag(views(args@)[1]) {
                join_spec(views(args@).skip(1), " "@) + "\n"@ + trim_end_spec(piped@)
            } else {
                trim_end_spec(piped@)
            }
        } else {
            join_spec(views(args@).skip(1), " "@)
        },
{
    if has_pipe {
        if args.len() > 1 && !str_starts_with(args[1].as_str(), "-") {
            let head = join_from(args, 1, " ");
            let with_nl = concat(head.as_str(), "\n");
            let tail = trim_end_str(piped);
            concat(with_nl.as_str(), tail.as_str())
        } else {
            trim_end_str(piped)
        }
    } else {
        join_from(args, 1, " ")
    }
}

/// The note document after appending `new_note`: a newline is put first when the document
/// is not empty and does not already end with one.
pub fn append_note_text(existing: &str, new_note: &str) -> (r: String)
    ensures
        r@ == if existing@.len() > 0 && !has_suffix(existing@, "\n"@) {
            existing@ + "\n"@ + new_note@
        } else {
            existing@ + new_note@
        },
{
    if !existing.is_empty() && !str_ends_with(existing, "\n") {
        let with_nl = concat(existing, "\n");
        concat(with_nl.as_str(), new_note)
    } else {
        concat(existing, new_note)
    }
}

/// A four-digit argument names a year: it stands for that year's note file.
pub open spec fn year_file_spec(t: Seq<char>) -> Seq<char> {
    if t.len() == 4 && all_digits(t) {
        t + ".note.gpg"@
    } else {
        t
    }
}

/// The remote file that a target names: `YYYY.note.gpg` for a four-digit year, else the
/// target itself.
pub fn year_file_name(t: &str) -> (r: String)
    ensures
        r@ == year_file_spec(t@),
{
    let v = chars_of(t);
    if v.len() == 4 && digits_only(&v) {
        concat(t, ".note.gpg")
    } else {
        owned(t)
    }
}

/// `name` without a final `.gpg`.
pub open spec fn strip_gpg_spec(name: Seq<char>) -> Seq<char> {
    if has_suffix(name, ".gpg"@) {
        name.subrange(0, name.len() - 4)
    } else {
        name
    }
}

/// Removes a final `.gpg` from `name`.
pub fn strip_gpg(name: &str) -> (r: String)
    ensures
        r@ == strip_gpg_spec(name@),
{
    let v = chars_of(name);
    if str_ends_with(name, ".gpg") {
        proof {
            reveal_strlit(".gpg");
        }
        string_of_range(&v, 0, v.len() - 4)
    } else {
        owned(name)
    }
}

/// The local name of a downloaded file: without its final `.gpg` when it is decrypted.
pub fn download_local_name(remote: &str, decrypt: bool) -> (r: String)
    ensures
        r@ == if decrypt {
            strip_gpg_spec(remote@)
        } else {
            remote@
        },
{
    if decrypt {
        strip_gpg(remote)
    } else {
        owned(remote)
    }
}

/// Where a decrypted file goes by default: the name without `.gpg`, or with `.decrypted`
/// appended when it has no `.gpg`.
pub fn decrypted_output_name(encrypted: &str) -> (r: String)
    ensures
        r@ == if has_suffix(encrypted@, ".gpg"@) {
            encrypted@.subrange(0, encrypted@.len() - 4)
        } else {
            encrypted@ + ".decrypted"@
        },
{
    if str_ends_with(encrypted, ".gpg") {
        strip_gpg(encrypted)
    } else {
        concat(encrypted, ".decrypted")
    }
}

/// Where an encrypted file goes by default: the name with `.gpg` appended.
pub fn encrypted_output_name(plain: &str) -> (r: String)
    ensures
        r@ == plain@ + ".gpg"@,
{
    concat(plain, ".gpg")
}

/// Decrypting undoes the naming of encryption: the default output name of a file
/// encrypted under its default name is the original name.
pub proof fn lemma_decrypted_name_undoes_encrypted_name(name: Seq<char>)
    ensures
        strip_gpg_spec(name + ".gpg"@) == name,
{
    reveal_strlit(".gpg");
    let full = name + ".gpg"@;
    assert(full.subrange(full.len() - 4, full.len() as int) =~= ".gpg"@);
    assert(full.subrange(0, full.len() - 4) =~= name);
}

/// Removing lines by keyword leaves no line that holds the keyword and keeps every line
/// that does not, no more lines than there were.
pub proof fn lemma_lines_without(lines: Seq<Seq<char>>, kw: Seq<char>)
    ensures
        forall|j: int|
            0 <= j < lines_without(lines, kw).len() ==> !contains_seq(
                #[trigger] lines_without(lines, kw)[j],
                kw,
            ),
        forall|i: int|
            0 <= i < lines.len() && !contains_seq(lines[i], kw) ==> #[trigger] lines_without(
                lines,
                kw,
            ).contains(lines[i]),
        lines_without(lines, kw).len() <= lines.len(),
    decreases lines.len(),
{
    if lines.len() > 0 {
        let d = lines.drop_last();
        lemma_lines_without(d, kw);
        let w = lines_without(d, kw);
        let n = lines.len() - 1;
        if !contains_seq(lines.last(), kw) {
            let r = w.push(lines.last());
            assert forall|j: int| 0 <= j < r.len() implies !contains_seq(#[trigger] r[j], kw) by {
                if j < w.len() {
                    assert(r[j] == w[j]);
                }
            }
            assert forall|i: int| 0 <= i < lines.len() && !contains_seq(lines[i], kw) implies #[trigger] r.contains(
                lines[i],
            ) by {
                if i < n {
                    assert(d[i] == lines[i]);
                    assert(w.contains(d[i]));
                    let m = choose|m: int| 0 <= m < w.len() && w[m] == d[i];
                    assert(r[m] == lines[i]);
                } else {
                    assert(r[w.len() as int] == lines[i]);
                }
            }
        } else {
            assert forall|i: int| 0 <= i < lines.len() && !contains_seq(lines[i], kw) implies #[trigger] w.contains(
                lines[i],
            ) by {
                assert(i < n);
                assert(d[i] == lines[i]);
            }
        }
    }
}

/// A keyword removal keeps exactly the lines that do not hold the keyword, each once and
/// in the order of the document: the document filtered by "does not hold the keyword".
pub proof fn lemma_lines_without_is_filter(lines: Seq<Seq<char>>, kw: Seq<char>)
    ensures
        lines_without(lines, kw) == lines.filter(|l: Seq<char>| !contains_seq(l, kw)),
    decreases lines.len(),
{
    reveal(Seq::filter);
    if lines.len() > 0 {
        lemma_lines_without_is_filter(lines.drop_last(), kw);
    }
}

/// When no argument from `from` on satisfies `p`, nothing is found.
proof fn lemma_first_from_none(args: Seq<Seq<char>>, from: int, p: spec_fn(Seq<char>) -> bool)
    requires
        0 <= from,
        forall|i: int| from <= i < args.len() ==> !p(#[trigger] args[i]),
    ensures
        first_from(args, from, p) is None,
    decreases args.len() - from,
{
    if from < args.len() {
        lemma_first_from_none(args, from + 1, p);
    }
}

/// An argument that does not start with `-`.
pub open spec fn is_plain_arg(a: Seq<char>) -> bool {
    a.len() == 0 || a[0] != '-'
}

/// The flag letters that a lone flag maps to a command of its own.
pub open spec fn is_command_letter(c: char) -> bool {
    c == 'm' || c == 'f' || c == 'n' || c == 't' || c == 'b' || c == 'p' || c == 'e' || c == 'd'
        || c == 'x' || c == 'k' || c == 's' || c == 'l'
}

proof fn lemma_cli_literals()
    ensures
        "-"@ =~= seq!['-'],
        "--"@ =~= seq!['-', '-'],
        "-r"@ =~= seq!['-', 'r'],
        "-i"@ =~= seq!['-', 'i'],
        "-h"@ =~= seq!['-', 'h'],
        "--web"@.len() == 5 && "--web"@[0] == '-',
        "--all"@.len() == 5 && "--all"@[0] == '-',
        "--sync"@.len() == 6 && "--sync"@[0] == '-',
        "--list"@.len() == 6 && "--list"@[0] == '-',
        "--init"@.len() == 6 && "--init"@[0] == '-',
        "--help"@.len() == 6,
        "help"@.len() == 4,
{
    reveal_strlit("-");
    reveal_strlit("--");
    reveal_strlit("-r");
    reveal_strlit("-i");
    reveal_strlit("-h");
    reveal_strlit("--web");
    reveal_strlit("--all");
    reveal_strlit("--sync");
    reveal_strlit("--list");
    reveal_strlit("--init");
    reveal_strlit("--help");
    reveal_strlit("help");
}

/// What a lone short flag `-c` contributes: the letter `c` and nothing else.
proof fn lemma_lone_flag_arg(a: Seq<char>, c: char)
    requires
        is_command_letter(c),
        a == seq!['-', c],
    ensures
        forall|d: char| #[trigger] contributes_flag(a, d) <==> d == c,
        !asks_init(a),
        !has_prefix(a, "-r"@),
        !has_prefix(a, "--"@),
        a != "--web"@,
        a != "help"@ && a != "-h"@ && a != "--help"@,
{
    lemma_cli_literals();
    assert(a.subrange(0, 1) =~= seq!['-']);
    assert(a.subrange(0, 2) =~= a);
    assert(is_short_flag(a));
    assert(!is_attached_removal(a));
    assert forall|d: char| #[trigger] contributes_flag(a, d) <==> d == c by {
        if d == c {
            assert(a[1] == d);
        }
    }
    assert(!asks_init(a)) by {
        assert(a != "-i"@);
        assert(forall|j: int| 0 <= j < a.len() ==> a[j] != 'i');
    }
}

/// An argument that does not start with `-` contributes no flag letter, asks for nothing.
proof fn lemma_plain_arg(a: Seq<char>)
    requires
        is_plain_arg(a),
    ensures
        forall|d: char| !#[trigger] contributes_flag(a, d),
        !asks_init(a),
        !has_prefix(a, "-r"@),
        !has_prefix(a, "--"@),
        a != "--web"@,
{
    lemma_cli_literals();
    if a.len() > 0 {
        assert(a.subrange(0, 1)[0] == a[0]);
        assert(!has_prefix(a, "-"@));
        assert(a != "--web"@ && a != "--all"@ && a != "--sync"@ && a != "--list"@ && a != "--init"@
            && a != "-i"@);
        if a.len() >= 2 {
            assert(a.subrange(0, 2)[0] == a[0]);
        }
    } else {
        assert(a != "--web"@ && a != "--all"@ && a != "--sync"@ && a != "--list"@ && a != "--init"@
            && a != "-i"@);
    }
}

/// A command line made of one short flag `-c` followed only by arguments that do not start
/// with `-` runs the command of that letter: `-m` rename, `-f` delete, `-n` new file, `-t`
/// TOTP, `-b` the batch usage, `-p` and `-e` encryption, `-d` download, `-x` decryption,
/// `-k` the ledger, `-s` sync, `-l` the listing.
pub proof fn lemma_lone_flag_dispatch(args: Seq<Seq<char>>, c: char, has_pipe: bool)
    requires
        args.len() >= 2,
        args[1] == seq!['-', c],
        is_command_letter(c),
        forall|i: int| 2 <= i < args.len() ==> is_plain_arg(#[trigger] args[i]),
    ensures
        c == 'm' ==> main_command_spec(args, has_pipe) == MainCommand::Rename,
        c == 'f' ==> main_command_spec(args, has_pipe) == MainCommand::Delete,
        c == 'n' ==> main_command_spec(args, has_pipe) == MainCommand::New,
        c == 't' ==> main_command_spec(args, has_pipe) == MainCommand::Totp,
        c == 'b' ==> main_command_spec(args, has_pipe) == MainCommand::BatchHelp,
        c == 'p' || c == 'e' ==> main_command_spec(args, has_pipe) == MainCommand::Encrypt,
        c == 'd' ==> main_command_spec(args, has_pipe) == MainCommand::Download,
        c == 'x' ==> main_command_spec(args, has_pipe) == MainCommand::Decrypt,
        c == 'k' ==> main_command_spec(args, has_pipe) == MainCommand::Ledger,
        c == 's' ==> main_command_spec(args, has_pipe) == MainCommand::Sync,
        c == 'l' ==> main_command_spec(args, has_pipe) == MainCommand::List,
{
    lemma_lone_flag_arg(args[1], c);
    lemma_cli_literals();
    assert forall|i: int| 2 <= i < args.len() implies {
        &&& forall|d: char| !#[trigger] contributes_flag(args[i], d)
        &&& !asks_init(args[i])
        &&& !has_prefix(args[i], "-r"@)
        &&& !has_prefix(args[i], "--"@)
        &&& args[i] != "--web"@
    } by {
        lemma_plain_arg(args[i]);
    }
    assert forall|d: char| #[trigger] has_flag(args, d) <==> d == c by {
        if d == c {
            assert(contributes_flag(args[1], d));
        }
        if has_flag(args, d) {
            let i = choose|i: int| 1 <= i < args.len() && contributes_flag(#[trigger] args[i], d);
            if i >= 2 {
                assert(!contributes_flag(args[i], d));
            }
        }
    }
    assert(!(exists|i: int| 1 <= i < args.len() && asks_init(#[trigger] args[i]))) by {
        assert forall|i: int| 1 <= i < args.len() implies !asks_init(#[trigger] args[i]) by {
            if i >= 2 {
            }
        }
    }
    assert(!(args[1] == "help"@ || args[1] == "-h"@ || args[1] == "--help"@));
    lemma_first_from_none(args, 1, |a: Seq<char>| is_retired_long(a));
    assert(!has_arg_from(args, 1, "--web"@));
    assert(!(exists|i: int| 1 <= i < args.len() && has_prefix(#[trigger] args[i], "-r"@)));
}

} // verus!
