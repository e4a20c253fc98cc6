use vstd::prelude::*;

use crate::text::{has_prefix, str_eq, str_starts_with, views};

verus! {

/// An argument that is a flag: it starts with `-`.
pub open spec fn is_flag(a: Seq<char>) -> bool {
    has_prefix(a, "-"@)
}

/// The arguments of `s` that are not flags, in order.
pub open spec fn positional_spec(s: Seq<Seq<char>>) -> Seq<Seq<char>>
    decreases s.len(),
{
    if s.len() == 0 {
        s
    } else if is_flag(s.last()) {
        positional_spec(s.drop_last())
    } else {
        positional_spec(s.drop_last()).push(s.last())
    }
}

/// The arguments from position `from` on (none when `from` is past the end).
pub open spec fn tail_from(s: Seq<Seq<char>>, from: int) -> Seq<Seq<char>> {
    if 0 <= from <= s.len() {
        s.skip(from)
    } else {
        Seq::empty()
    }
}

/// Some argument at or after position `from` equals `lit`.
pub open spec fn has_arg_from(args: Seq<Seq<char>>, from: int, lit: Seq<char>) -> bool {
    exists|i: int| from <= i < args.len() && #[trigger] args[i] == lit
}

/// The arguments at or after position `from` that are not flags, in order.
pub fn positional_args(args: &Vec<String>, from: usize) -> (r: Vec<String>)
    ensures
        views(r@) == positional_spec(tail_from(views(args@), from as int)),
{
    let mut r: Vec<String> = Vec::new();
    if from >= args.len() {
        assert(views(r@) =~= Seq::<Seq<char>>::empty());
        return r;
    }
    let mut i: usize = from;
    while i < args.len()
        invariant
            from <= i <= args.len(),
            views(r@) == positional_spec(views(args@).skip(from as int).take(i - from)),
        decreases args.len() - i,
    {
        let ghost part = views(args@).skip(from as int).take(i + 1 - from);
        assert(part.drop_last() =~= views(args@).skip(from as int).take(i - from));
        assert(part.last() == args@[i as int]@);
        if !str_starts_with(args[i].as_str(), "-") {
            r.push(args[i].clone());
            assert(views(r@) =~= positional_spec(part));
        }
        i = i + 1;
    }
    assert(views(args@).skip(from as int).take(args.len() - from) =~= views(args@).skip(
        from as int,
    ));
    r
}

/// Tells whether some argument at or after position `from` equals `lit`.
pub fn arg_present(args: &Vec<String>, from: usize, lit: &str) -> (r: bool)
    ensures
        r == has_arg_from(views(args@), from as int, lit@),
{
    let mut i: usize = from;
    while i < args.len()
        invariant
            from <= i || args.len() <= i,
            forall|j: int| from <= j < i && j < args.len() ==> #[trigger] views(args@)[j] != lit@,
        decreases args.len() - i,
    {
        if str_eq(args[i].as_str(), lit) {
            assert(views(args@)[i as int] == lit@);
            return true;
        }
        i = i + 1;
    }
    false
}

} // verus!
