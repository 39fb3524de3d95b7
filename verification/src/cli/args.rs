//! Picking options, flags and positional arguments out of the argument list.

use vstd::prelude::*;
use crate::text::{concat3, concat_str, str_eq};

verus! {

/// The arguments as texts.
pub open spec fn texts(args: Seq<String>) -> Seq<Seq<char>> {
    args.map_values(|a: String| a@)
}

/// Position of the first argument equal to `name`, or -1.
pub open spec fn position_of(args: Seq<Seq<char>>, name: Seq<char>) -> int
    decreases args.len(),
{
    if args.len() == 0 {
        -1
    } else if args[0] == name {
        0
    } else {
        let p = position_of(args.skip(1), name);
        if p < 0 {
            -1
        } else {
            p + 1
        }
    }
}

/// What `take_option` gives for `name` and the arguments left.
pub open spec fn option_taken(args: Seq<Seq<char>>, name: Seq<char>) -> (Result<Option<Seq<char>>, Seq<char>>, Seq<Seq<char>>) {
    let i = position_of(args, name);
    if i < 0 {
        (Ok(None), args)
    } else if i + 1 >= args.len() {
        (Err(name + " requires a value"@), args.remove(i))
    } else {
        (Ok(Some(args[i + 1])), args.remove(i).remove(i))
    }
}

/// What `take_bool` gives for `name` and the arguments left.
pub open spec fn flag_taken(args: Seq<Seq<char>>, name: Seq<char>) -> (bool, Seq<Seq<char>>) {
    let i = position_of(args, name);
    if i < 0 {
        (false, args)
    } else {
        (true, args.remove(i))
    }
}

/// What `take_positional` gives and the arguments left.
pub open spec fn positional_taken(args: Seq<Seq<char>>, name: Seq<char>) -> (Result<Seq<char>, Seq<char>>, Seq<Seq<char>>) {
    let i = first_positional(args);
    if i < 0 {
        (Err(name + " is required"@), args)
    } else {
        (Ok(args[i]), args.remove(i))
    }
}

/// The text of an optional-string result.
pub open spec fn opt_result_view(r: Result<Option<String>, String>) -> Result<Option<Seq<char>>, Seq<char>> {
    match r {
        Ok(Some(v)) => Ok(Some(v@)),
        Ok(None) => Ok(None),
        Err(e) => Err(e@),
    }
}

/// The text of a string result.
pub open spec fn result_view(r: Result<String, String>) -> Result<Seq<char>, Seq<char>> {
    match r {
        Ok(v) => Ok(v@),
        Err(e) => Err(e@),
    }
}

/// Position of the first argument that does not start with `-`, or -1.
pub open spec fn first_positional(args: Seq<Seq<char>>) -> int
    decreases args.len(),
{
    if args.len() == 0 {
        -1
    } else if !(args[0].len() > 0 && args[0][0] == '-') {
        0
    } else {
        let p = first_positional(args.skip(1));
        if p < 0 {
            -1
        } else {
            p + 1
        }
    }
}

proof fn lemma_position_bounds(args: Seq<Seq<char>>, name: Seq<char>)
    ensures
        -1 <= position_of(args, name) < args.len(),
        position_of(args, name) >= 0 ==> args[position_of(args, name)] == name,
    decreases args.len(),
{
    if args.len() > 0 && args[0] != name {
        lemma_position_bounds(args.skip(1), name);
    }
}

/// The position of the first argument equal to `name`.
fn position(args: &Vec<String>, name: &str) -> (r: Option<usize>)
    ensures
        match r {
            Some(i) => position_of(texts(args@), name@) == i && i < args@.len(),
            None => position_of(texts(args@), name@) == -1,
        },
{
    let ghost all = texts(args@);
    let mut i: usize = 0;
    assert(all.skip(0) =~= all);
    while i < args.len()
        invariant
            i <= args.len(),
            all == texts(args@),
            position_of(all, name@) == if position_of(all.skip(i as int), name@) < 0 {
                -1
            } else {
                position_of(all.skip(i as int), name@) + i
            },
        decreases args.len() - i,
    {
        assert(all.skip(i as int)[0] == args@[i as int]@);
        if str_eq(args[i].as_str(), name) {
            return Some(i);
        }
        assert(all.skip(i as int).skip(1) =~= all.skip(i + 1));
        i = i + 1;
    }
    None
}

/// Whether `name` is among the arguments.
pub fn flag(args: &Vec<String>, name: &str) -> (r: bool)
    ensures
        r == texts(args@).contains(name@),
{
    let p = position(args, name);
    proof {
        lemma_position_bounds(texts(args@), name@);
        if texts(args@).contains(name@) {
            let k = choose|k: int| 0 <= k < texts(args@).len() && texts(args@)[k] == name@;
            lemma_position_found(texts(args@), name@, k);
        }
    }
    p.is_some()
}

proof fn lemma_position_found(args: Seq<Seq<char>>, name: Seq<char>, k: int)
    requires
        0 <= k < args.len(),
        args[k] == name,
    ensures
        0 <= position_of(args, name) <= k,
    decreases k,
{
    if args[0] != name {
        lemma_position_found(args.skip(1), name, k - 1);
    }
}

/// Removes and returns the subcommand; fails (and the caller shows the help)
/// when there is none or help is asked for.
pub fn pop_subcommand(args: &mut Vec<String>, parent: &str) -> (r: Result<String, String>)
    ensures
        (old(args)@.len() == 0 || texts(old(args)@).contains("--help"@) || texts(old(args)@).contains(
            "-h"@,
        )) ==> (r matches Err(e) && e@ == "missing "@ + parent@ + " subcommand"@ && final(args)@
            == old(args)@),
        !(old(args)@.len() == 0 || texts(old(args)@).contains("--help"@) || texts(
            old(args)@,
        ).contains("-h"@)) ==> (r matches Ok(s) && s@ == old(args)@[0]@ && final(args)@ == old(
            args,
        )@.skip(1)),
{
    if args.len() == 0 || flag(args, "--help") || flag(args, "-h") {
        return Err(concat3("missing ", parent, " subcommand"));
    }
    let s = args.remove(0);
    assert(args@ =~= old(args)@.skip(1));
    Ok(s)
}

/// Removes and returns the first argument that does not start with `-`.
pub fn take_positional(args: &mut Vec<String>, name: &str) -> (r: Result<String, String>)
    ensures
        (result_view(r), texts(final(args)@)) == positional_taken(texts(old(args)@), name@),
        first_positional(texts(old(args)@)) < 0 ==> (r matches Err(e) && e@ == name@ + " is required"@
            && final(args)@ == old(args)@),
        first_positional(texts(old(args)@)) >= 0 ==> {
            let i = first_positional(texts(old(args)@));
            r matches Ok(s) && s@ == old(args)@[i]@ && final(args)@ == old(args)@.remove(i)
        },
{
    let ghost all = texts(args@);
    let mut i: usize = 0;
    assert(all.skip(0) =~= all);
    while i < args.len()
        invariant
            i <= args.len(),
            args@ == old(args)@,
            all == texts(args@),
            first_positional(all) == if first_positional(all.skip(i as int)) < 0 {
                -1
            } else {
                first_positional(all.skip(i as int)) + i
            },
        decreases args.len() - i,
    {
        assert(all.skip(i as int)[0] == args@[i as int]@);
        let dash = match args[i].as_str().chars().next() {
            Some(c) => c == '-',
            None => false,
        };
        proof {
            if args@[i as int]@.len() > 0 {
                assert(args@[i as int]@[0] == args@[i as int]@.first());
            }
        }
        if !dash {
            let s = args.remove(i);
            return Ok(s);
        }
        assert(all.skip(i as int).skip(1) =~= all.skip(i + 1));
        i = i + 1;
    }
    Err(concat_str(name, " is required"))
}

/// Removes `name` and the value after it; `None` when `name` is absent, and
/// an error (with `name` already removed) when no value follows.
pub fn take_option(args: &mut Vec<String>, name: &str) -> (r: Result<Option<String>, String>)
    ensures
        (opt_result_view(r), texts(final(args)@)) == option_taken(texts(old(args)@), name@),
        position_of(texts(old(args)@), name@) < 0 ==> (r matches Ok(None) && final(args)@ == old(args)@),
        position_of(texts(old(args)@), name@) >= 0 ==> {
            let i = position_of(texts(old(args)@), name@);
            if i + 1 >= old(args)@.len() {
                r matches Err(e) && e@ == name@ + " requires a value"@ && final(args)@ == old(
                    args,
                )@.remove(i)
            } else {
                r matches Ok(Some(v)) && v@ == old(args)@[i + 1]@ && final(args)@ == old(
                    args,
                )@.remove(i).remove(i)
            }
        },
{
    let index = match position(args, name) {
        Some(i) => i,
        None => return Ok(None),
    };
    args.remove(index);
    if index >= args.len() {
        return Err(concat_str(name, " requires a value"));
    }
    let v = args.remove(index);
    Ok(Some(v))
}

/// Removes the flag `name`; whether it was there.
pub fn take_bool(args: &mut Vec<String>, name: &str) -> (r: bool)
    ensures
        (r, texts(final(args)@)) == flag_taken(texts(old(args)@), name@),
        r == (position_of(texts(old(args)@), name@) >= 0),
        r ==> final(args)@ == old(args)@.remove(position_of(texts(old(args)@), name@)),
        !r ==> final(args)@ == old(args)@,
{
    match position(args, name) {
        Some(i) => {
            args.remove(i);
            true
        },
        None => false,
    }
}

/// Fails on the first argument left over.
pub fn reject_extra(args: &Vec<String>) -> (r: Result<(), String>)
    ensures
        args@.len() == 0 ==> r is Ok,
        args@.len() > 0 ==> (r matches Err(e) && e@ == "unexpected argument "@ + args@[0]@),
{
    if args.len() > 0 {
        return Err(concat_str("unexpected argument ", args[0].as_str()));
    }
    Ok(())
}

/// What `pop_subcommand` gives: the subcommand and the arguments after it, or
/// the error that asks for help.
pub open spec fn subcommand_split(args: Seq<Seq<char>>, parent: Seq<char>) -> Result<
    (Seq<char>, Seq<Seq<char>>),
    Seq<char>,
> {
    if args.len() == 0 || args.contains("--help"@) || args.contains("-h"@) {
        Err("missing "@ + parent + " subcommand"@)
    } else {
        Ok((args[0], args.skip(1)))
    }
}

/// The error of the first argument left over, if any.
pub open spec fn extra_refused(args: Seq<Seq<char>>) -> Option<Seq<char>> {
    if args.len() > 0 {
        Some("unexpected argument "@ + args[0])
    } else {
        None
    }
}

} // verus!
