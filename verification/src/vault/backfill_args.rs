//! The command line of the session backfill: which logs to import and how.

use vstd::prelude::*;
use crate::cli::args::texts;
use crate::json::opt_seq;
use crate::text::{
    append_str, concat_str, decimal, owned, parse_usize_text, parsed_usize, str_eq, u64_to_decimal,
    usize_to_decimal,
};

verus! {

/// The options of a backfill run.
#[derive(Debug, Clone, PartialEq, Eq)]
pub struct BackfillArgs {
    /// Session logs or directories to import.
    pub paths: Vec<String>,
    /// Where raw copies of imported logs go.
    pub data_dir: Option<String>,
    /// Visibility given to imported threads.
    pub default_visibility: Option<String>,
    /// Parse without writing.
    pub dry_run: bool,
    /// Import at most this many sessions.
    pub limit: Option<usize>,
}

/// What the command line asks for.
#[derive(Debug, Clone, PartialEq, Eq)]
pub enum BackfillInvocation {
    /// Print the help text and stop.
    Help,
    /// Import with these options.
    Run(BackfillArgs),
}

/// The options as values: paths, data directory, default visibility, dry
/// run, limit.
pub open spec fn backfill_args_view(a: BackfillArgs) -> (
    Seq<Seq<char>>,
    Option<Seq<char>>,
    Option<Seq<char>>,
    bool,
    Option<int>,
) {
    (
        texts(a.paths@),
        opt_seq(a.data_dir),
        opt_seq(a.default_visibility),
        a.dry_run,
        match a.limit {
            Some(n) => Some(n as int),
            None => None,
        },
    )
}

/// Reads the arguments left to read, with the options read so far. `Ok(None)`
/// asks for help; `Err(None)` is a limit that is not a number, whose message
/// comes from `usize::from_str`.
pub open spec fn backfill_scan(
    args: Seq<Seq<char>>,
    acc: (Seq<Seq<char>>, Option<Seq<char>>, Option<Seq<char>>, bool, Option<int>),
) -> Result<
    Option<(Seq<Seq<char>>, Option<Seq<char>>, Option<Seq<char>>, bool, Option<int>)>,
    Option<Seq<char>>,
>
    decreases args.len(),
{
    if args.len() == 0 {
        Ok(Some(acc))
    } else {
        let a = args[0];
        if a == "--help"@ || a == "-h"@ {
            Ok(None)
        } else if a == "--dry-run"@ {
            backfill_scan(args.skip(1), (acc.0, acc.1, acc.2, true, acc.4))
        } else if a == "--data-dir"@ {
            if args.len() < 2 {
                Err(Some("--data-dir needs a value"@))
            } else {
                backfill_scan(args.skip(2), (acc.0, Some(args[1]), acc.2, acc.3, acc.4))
            }
        } else if a == "--default-visibility"@ {
            if args.len() < 2 {
                Err(Some("--default-visibility needs a value"@))
            } else {
                backfill_scan(args.skip(2), (acc.0, acc.1, Some(args[1]), acc.3, acc.4))
            }
        } else if a == "--limit"@ {
            if args.len() < 2 {
                Err(Some("--limit needs a value"@))
            } else {
                match parsed_usize(args[1]) {
                    None => Err(None),
                    Some(n) => backfill_scan(args.skip(2), (acc.0, acc.1, acc.2, acc.3, Some(n))),
                }
            }
        } else if a.len() > 0 && a[0] == '-' {
            Err(Some("unknown flag "@ + a))
        } else {
            backfill_scan(args.skip(1), (acc.0.push(a), acc.1, acc.2, acc.3, acc.4))
        }
    }
}

/// Reads the backfill command line (the arguments after the program name).
pub fn parse_args(argv: Vec<String>) -> (r: Result<BackfillInvocation, String>)
    ensures
        ({
            let outcome = backfill_scan(
                texts(argv@),
                (Seq::empty(), None, None, false, None),
            );
            match r {
                Ok(BackfillInvocation::Help) => outcome is Ok && outcome->Ok_0 is None,
                Ok(BackfillInvocation::Run(a)) => outcome == Ok::<_, Option<Seq<char>>>(
                    Some(backfill_args_view(a)),
                ),
                Err(e) => match outcome {
                    Err(Some(m)) => e@ == m,
                    Err(None) => true,
                    Ok(_) => false,
                },
            }
        }),
{
    let ghost all = texts(argv@);
    let mut paths: Vec<String> = Vec::new();
    let mut data_dir: Option<String> = None;
    let mut default_visibility: Option<String> = None;
    let mut dry_run = false;
    let mut limit: Option<usize> = None;
    let mut i: usize = 0;
    proof {
        reveal_strlit("--help");
        reveal_strlit("-h");
        reveal_strlit("--dry-run");
        reveal_strlit("--data-dir");
        reveal_strlit("--default-visibility");
        reveal_strlit("--limit");
        assert(all.skip(0) =~= all);
        assert(texts(paths@) =~= Seq::<Seq<char>>::empty());
    }
    while i < argv.len()
        invariant
            i <= argv.len(),
            all == texts(argv@),
            backfill_scan(all, (Seq::empty(), None, None, false, None)) == backfill_scan(
                all.skip(i as int),
                (
                    texts(paths@),
                    opt_seq(data_dir),
                    opt_seq(default_visibility),
                    dry_run,
                    match limit {
                        Some(n) => Some(n as int),
                        None => None,
                    },
                ),
            ),
        decreases argv.len() - i,
    {
        let a = argv[i].as_str();
        let ghost rest = all.skip(i as int);
        assert(rest[0] == a@);
        if str_eq(a, "--help") || str_eq(a, "-h") {
            return Ok(BackfillInvocation::Help);
        } else if str_eq(a, "--dry-run") {
            dry_run = true;
            assert(rest.skip(1) =~= all.skip(i + 1));
            i = i + 1;
        } else if str_eq(a, "--data-dir") {
            if i + 1 >= argv.len() {
                return Err(owned("--data-dir needs a value"));
            }
            assert(rest[1] == argv@[i + 1]@);
            data_dir = Some(owned(argv[i + 1].as_str()));
            assert(rest.skip(2) =~= all.skip(i + 2));
            i = i + 2;
        } else if str_eq(a, "--default-visibility") {
            if i + 1 >= argv.len() {
                return Err(owned("--default-visibility needs a value"));
            }
            assert(rest[1] == argv@[i + 1]@);
            default_visibility = Some(owned(argv[i + 1].as_str()));
            assert(rest.skip(2) =~= all.skip(i + 2));
            i = i + 2;
        } else if str_eq(a, "--limit") {
            if i + 1 >= argv.len() {
                return Err(owned("--limit needs a value"));
            }
            assert(rest[1] == argv@[i + 1]@);
            let n = match parse_usize_text(argv[i + 1].as_str()) {
                Ok(n) => n,
                Err(e) => return Err(e),
            };
            limit = Some(n);
            assert(rest.skip(2) =~= all.skip(i + 2));
            i = i + 2;
        } else if match a.chars().next() {
            Some(c) => c == '-',
            None => false,
        } {
            proof {
                assert(a@[0] == a@.first());
            }
            return Err(concat_str("unknown flag ", a));
        } else {
            proof {
                if a@.len() > 0 {
                    assert(a@[0] == a@.first());
                }
            }
            let ghost before = texts(paths@);
            paths.push(owned(a));
            assert(texts(paths@) =~= before.push(a@));
            assert(rest.skip(1) =~= all.skip(i + 1));
            i = i + 1;
        }
    }
    assert(all.skip(i as int) =~= Seq::<Seq<char>>::empty());
    Ok(BackfillInvocation::Run(BackfillArgs { paths, data_dir, default_visibility, dry_run, limit }))
}

/// The session logs a run imports: the ones found, cut to the first `limit`
/// when a limit is given.
pub open spec fn limited_files(files: Seq<Seq<char>>, limit: Option<usize>) -> Seq<Seq<char>> {
    match limit {
        Some(l) => if l < files.len() {
            files.take(l as int)
        } else {
            files
        },
        None => files,
    }
}

/// The logs to import (`files`, as found and ordered), cut to the limit; a
/// run with none left is refused.
pub fn files_to_import(files: Vec<String>, limit: Option<usize>) -> (r: Result<Vec<String>, String>)
    ensures
        limited_files(texts(files@), limit).len() == 0 ==> (r matches Err(e) && e@
            == "no Pi session JSONL files found"@),
        limited_files(texts(files@), limit).len() > 0 ==> (r matches Ok(v) && texts(v@)
            == limited_files(texts(files@), limit)),
{
    let ghost all = files@;
    let mut files = files;
    match limit {
        Some(l) => if l < files.len() {
            files.truncate(l);
            assert(files@ =~= all.take(l as int));
            assert(texts(files@) =~= texts(all).take(l as int));
        },
        None => {},
    }
    if files.len() == 0 {
        Err(owned("no Pi session JSONL files found"))
    } else {
        Ok(files)
    }
}

/// What a dry run prints: how many sessions and events would be imported
/// into `database`.
pub fn dry_run_report(sessions: usize, events: usize, database: &str) -> (r: String)
    ensures
        r@ == "would import "@ + decimal(sessions as nat) + " sessions and "@ + decimal(events as nat)
            + " events into "@ + database@,
{
    let mut r = owned("would import ");
    append_str(&mut r, usize_to_decimal(sessions).as_str());
    append_str(&mut r, " sessions and ");
    append_str(&mut r, usize_to_decimal(events).as_str());
    append_str(&mut r, " events into ");
    append_str(&mut r, database);
    r
}

/// What a run prints at its end: the sessions scanned and the new events
/// accepted into `database`.
pub fn import_report(scanned: usize, accepted: u64, database: &str) -> (r: String)
    ensures
        r@ == "imported/scanned "@ + decimal(scanned as nat) + " sessions; accepted "@ + decimal(
            accepted as nat,
        ) + " new events into "@ + database@,
{
    let mut r = owned("imported/scanned ");
    append_str(&mut r, usize_to_decimal(scanned).as_str());
    append_str(&mut r, " sessions; accepted ");
    append_str(&mut r, u64_to_decimal(accepted).as_str());
    append_str(&mut r, " new events into ");
    append_str(&mut r, database);
    r
}

} // verus!
