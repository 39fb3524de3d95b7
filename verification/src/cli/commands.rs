//! The `memory`, `vault` and `auth` commands of the client: how their
//! arguments are read and what they print of the server's replies.

use vstd::prelude::*;
use crate::cli::args::{extra_refused, subcommand_split, flag_taken, option_taken, pop_subcommand, positional_taken, reject_extra, take_bool, take_option, take_positional, texts};
use crate::fields::join_with;
use crate::json::{member, str_member, str_member_of, Json, JsonV};
use crate::text::{append_str, chars_of, concat3, concat_str, owned, str_eq, trim, trim_str};
use crate::cli::config::{bool_word, configured_token, present, Config};

verus! {

/// The arguments joined by single spaces.
pub open spec fn joined_args(args: Seq<Seq<char>>) -> Seq<char> {
    join_with(args, " "@)
}

/// Joins the arguments with single spaces.
pub fn join_args(args: &Vec<String>) -> (r: String)
    ensures
        r@ == joined_args(texts(args@)),
{
    let ghost all = texts(args@);
    let mut out = String::new();
    let mut i: usize = 0;
    assert(all.take(0) =~= Seq::<Seq<char>>::empty());
    while i < args.len()
        invariant
            i <= args.len(),
            all == texts(args@),
            out@ == join_with(all.take(i as int), " "@),
        decreases args.len() - i,
    {
        if i > 0 {
            append_str(&mut out, " ");
        }
        append_str(&mut out, args[i].as_str());
        proof {
            crate::fields::lemma_join_push(all.take(i as int), " "@, all[i as int]);
            assert(all.take(i + 1) =~= all.take(i as int).push(all[i as int]));
            if i == 0 {
                assert(out@ =~= all[i as int]);
            }
        }
        i = i + 1;
    }
    assert(all.take(args.len() as int) =~= all);
    out
}

/// Where the text of a new memory comes from.
#[derive(Debug, Clone, PartialEq, Eq)]
pub enum TextSource {
    Stdin,
    File(String),
    Inline(String),
}

/// A `memory` command as given on the command line.
#[derive(Debug, Clone, PartialEq, Eq)]
pub enum MemoryCommand {
    /// `memory add`: the user, the text's source, whether to print JSON, and
    /// the arguments left over (refused once the text is read).
    Add { user_id: Option<String>, source: TextSource, json: bool, rest: Vec<String> },
    /// `memory search`: the user, the query, whether to print JSON.
    Search { user_id: Option<String>, query: String, json: bool },
    /// `memory list`: the user, whether to print JSON.
    List { user_id: Option<String>, json: bool },
}

/// The view of a text source.
pub open spec fn source_view(s: TextSource) -> (int, Seq<char>) {
    match s {
        TextSource::Stdin => (0, Seq::empty()),
        TextSource::File(p) => (1, p@),
        TextSource::Inline(t) => (2, t@),
    }
}

/// What `memory add` reads from `args` (after the subcommand).
pub open spec fn memory_add_parsed(args: Seq<Seq<char>>) -> Result<
    (Option<Seq<char>>, (int, Seq<char>), bool, Seq<Seq<char>>),
    Seq<char>,
> {
    let (u, a1) = option_taken(args, "--user-id"@);
    let (f, a2) = option_taken(a1, "--file"@);
    let (j, a3) = flag_taken(a2, "--json"@);
    match u {
        Err(e) => Err(e),
        Ok(user) => match f {
            Err(e) => Err(e),
            Ok(Some(p)) => if p == "-"@ {
                Ok((user, (0, Seq::empty()), j, a3))
            } else {
                Ok((user, (1, p), j, a3))
            },
            Ok(None) => if a3.len() == 0 {
                Err("memory text is required (or pass --file PATH|-)"@)
            } else {
                Ok((user, (2, joined_args(a3)), j, Seq::empty()))
            },
        },
    }
}

/// What `memory search` reads from `args`.
pub open spec fn memory_search_parsed(args: Seq<Seq<char>>) -> Result<
    (Option<Seq<char>>, Seq<char>, bool),
    Seq<char>,
> {
    let (u, a1) = option_taken(args, "--user-id"@);
    let (j, a2) = flag_taken(a1, "--json"@);
    match u {
        Err(e) => Err(e),
        Ok(user) => if a2.len() == 0 {
            Err("search query is required"@)
        } else {
            Ok((user, joined_args(a2), j))
        },
    }
}

/// What `memory list` reads from `args`.
pub open spec fn memory_list_parsed(args: Seq<Seq<char>>) -> Result<(Option<Seq<char>>, bool), Seq<char>> {
    let (u, a1) = option_taken(args, "--user-id"@);
    let (j, a2) = flag_taken(a1, "--json"@);
    match u {
        Err(e) => Err(e),
        Ok(user) => if a2.len() > 0 {
            Err("unexpected argument "@ + a2[0])
        } else {
            Ok((user, j))
        },
    }
}

/// The optional text of an optional string.
pub open spec fn ov(o: Option<String>) -> Option<Seq<char>> {
    crate::json::opt_seq(o)
}

/// The parsed command as values, for the contract.
pub open spec fn memory_command_matches(args: Seq<Seq<char>>, c: MemoryCommand) -> bool {
    match c {
        MemoryCommand::Add { user_id, source, json, rest } => args.len() > 0 && (args[0] == "add"@)
            && memory_add_parsed(args.skip(1)) == Ok::<_, Seq<char>>(
            (ov(user_id), source_view(source), json, texts(rest@)),
        ),
        MemoryCommand::Search { user_id, query, json } => args.len() > 0 && args[0] == "search"@
            && memory_search_parsed(args.skip(1)) == Ok::<_, Seq<char>>((ov(user_id), query@, json)),
        MemoryCommand::List { user_id, json } => args.len() > 0 && (args[0] == "list"@ || args[0]
            == "ls"@) && memory_list_parsed(args.skip(1)) == Ok::<_, Seq<char>>((ov(user_id), json)),
    }
}

/// The error of a result, if it is one.
pub open spec fn err_of<T>(r: Result<T, Seq<char>>) -> Option<Seq<char>> {
    match r {
        Ok(_) => None,
        Err(e) => Some(e),
    }
}

/// The error that a `memory` command line is refused with, if any.
pub open spec fn memory_command_error(args: Seq<Seq<char>>) -> Option<Seq<char>> {
    match subcommand_split(args, "memory"@) {
        Err(e) => Some(e),
        Ok((sub, rest)) => if sub == "add"@ {
            err_of(memory_add_parsed(rest))
        } else if sub == "search"@ {
            err_of(memory_search_parsed(rest))
        } else if sub == "list"@ || sub == "ls"@ {
            err_of(memory_list_parsed(rest))
        } else {
            Some("unknown memory command "@ + sub)
        },
    }
}

/// Reads a `memory` command (the arguments after `memory`).
pub fn parse_memory_command(argv: Vec<String>) -> (r: Result<MemoryCommand, String>)
    ensures
        r matches Ok(c) ==> memory_command_matches(texts(argv@), c),
        r is Ok <==> memory_command_error(texts(argv@)) is None,
        r matches Err(e) ==> memory_command_error(texts(argv@)) == Some(e@),
{
    let mut args = argv;
    let ghost a0 = texts(args@);
    let sub = match pop_subcommand(&mut args, "memory") {
        Ok(s) => s,
        Err(e) => return Err(e),
    };
    assert(texts(args@) =~= a0.skip(1));
    proof {
        reveal_strlit("add");
        reveal_strlit("search");
        reveal_strlit("list");
        reveal_strlit("ls");
        assert("add"@.len() == 3 && "search"@.len() == 6 && "list"@.len() == 4 && "ls"@.len() == 2);
    }
    if str_eq(sub.as_str(), "add") {
        let user_id = match take_option(&mut args, "--user-id") {
            Ok(u) => u,
            Err(e) => return Err(e),
        };
        let file = match take_option(&mut args, "--file") {
            Ok(f) => f,
            Err(e) => return Err(e),
        };
        let json = take_bool(&mut args, "--json");
        let source = match file {
            Some(p) => if str_eq(p.as_str(), "-") {
                TextSource::Stdin
            } else {
                TextSource::File(p)
            },
            None => {
                if args.len() == 0 {
                    return Err(owned("memory text is required (or pass --file PATH|-)"));
                }
                let text = join_args(&args);
                args = Vec::new();
                TextSource::Inline(text)
            },
        };
        assert(texts(args@) =~= memory_add_parsed(a0.skip(1))->Ok_0.3);
        Ok(MemoryCommand::Add { user_id, source, json, rest: args })
    } else if str_eq(sub.as_str(), "search") {
        let user_id = match take_option(&mut args, "--user-id") {
            Ok(u) => u,
            Err(e) => return Err(e),
        };
        let json = take_bool(&mut args, "--json");
        if args.len() == 0 {
            return Err(owned("search query is required"));
        }
        let query = join_args(&args);
        Ok(MemoryCommand::Search { user_id, query, json })
    } else if str_eq(sub.as_str(), "list") || str_eq(sub.as_str(), "ls") {
        let user_id = match take_option(&mut args, "--user-id") {
            Ok(u) => u,
            Err(e) => return Err(e),
        };
        let json = take_bool(&mut args, "--json");
        match reject_extra(&args) {
            Ok(()) => {},
            Err(e) => return Err(e),
        }
        Ok(MemoryCommand::List { user_id, json })
    } else {
        Err(concat_str("unknown memory command ", sub.as_str()))
    }
}

/// Refuses memory text that is blank.
pub fn check_memory_text(text: &str) -> (r: Result<(), String>)
    ensures
        r is Ok <==> trim(text@).len() > 0,
        r matches Err(e) ==> e@ == "memory text cannot be empty"@,
{
    let t = crate::text::trim_str(text);
    if t.as_str().is_empty() {
        Err(owned("memory text cannot be empty"))
    } else {
        Ok(())
    }
}

/// What `memory add` prints of the server's reply: its `message`, or a
/// default note.
pub fn memory_add_message(reply: &Json) -> (r: String)
    ensures
        r@ == match str_member(reply.deep(), "message"@) {
            Some(m) => m,
            None => "Memory extraction queued"@,
        },
{
    match str_member_of(reply, "message") {
        Some(m) => owned(m),
        None => owned("Memory extraction queued"),
    }
}

/// The lines `memory list` prints: one `- fact` per stored memory, or a note
/// when there is none.
pub open spec fn memory_list_lines(reply: JsonV) -> Seq<Seq<char>> {
    match member(reply, "memories"@) {
        Some(JsonV::Array(items)) if items.len() > 0 => Seq::new(
            items.len(),
            |i: int|
                "- "@ + match str_member(items[i], "fact"@) {
                    Some(f) => f,
                    None => Seq::empty(),
                },
        ),
        _ => seq!["No memories stored"@],
    }
}

/// The lines `memory list` prints.
pub fn memories_listing(reply: &Json) -> (r: Vec<String>)
    ensures
        r@.map_values(|s: String| s@) == memory_list_lines(reply.deep()),
{
    proof {
        reveal_strlit("");
        assert(""@ =~= Seq::<char>::empty());
    }
    match reply.get("memories") {
        Some(Json::Array(items)) => {
            if items.len() == 0 {
                let r = vec![owned("No memories stored")];
                assert(r@.map_values(|s: String| s@) =~= seq!["No memories stored"@]);
                return r;
            }
            let ghost dv = match member(reply.deep(), "memories"@) {
                Some(JsonV::Array(dv)) => dv,
                _ => Seq::empty(),
            };
            let mut out: Vec<String> = Vec::new();
            let mut i: usize = 0;
            while i < items.len()
                invariant
                    i <= items.len(),
                    dv.len() == items@.len(),
                    forall|k: int| 0 <= k < items@.len() ==> dv[k] == (#[trigger] items@[k]).deep(),
                    out@.len() == i,
                    forall|k: int|
                        0 <= k < i ==> (#[trigger] out@[k])@ == "- "@ + match str_member(dv[k], "fact"@) {
                            Some(f) => f,
                            None => Seq::empty(),
                        },
                decreases items.len() - i,
            {
                proof {
                    reveal_strlit("");
                    assert(""@ =~= Seq::<char>::empty());
                }
                let fact = match str_member_of(&items[i], "fact") {
                    Some(f) => f,
                    None => "",
                };
                out.push(concat_str("- ", fact));
                i = i + 1;
            }
            assert(out@.map_values(|s: String| s@) =~= memory_list_lines(reply.deep()));
            out
        },
        _ => {
            let r = vec![owned("No memories stored")];
            assert(r@.map_values(|s: String| s@) =~= seq!["No memories stored"@]);
            r
        },
    }
}

/// A `vault` command as given on the command line.
#[derive(Debug, Clone, PartialEq, Eq)]
pub enum VaultCommand {
    CurrentThread { json: bool },
    ShareThread { thread_id: String, json: bool },
    ShareCurrentThread { json: bool },
}

/// The arguments after a subcommand that only takes `--json`.
pub open spec fn json_only_parsed(args: Seq<Seq<char>>) -> Result<bool, Seq<char>> {
    let (j, a) = flag_taken(args, "--json"@);
    if a.len() > 0 {
        Err("unexpected argument "@ + a[0])
    } else {
        Ok(j)
    }
}

/// What `vault share-thread` reads from `args`.
pub open spec fn share_thread_parsed(args: Seq<Seq<char>>) -> Result<(Seq<char>, bool), Seq<char>> {
    let (t, a1) = positional_taken(args, "thread-id"@);
    let (j, a2) = flag_taken(a1, "--json"@);
    match t {
        Err(e) => Err(e),
        Ok(id) => if a2.len() > 0 {
            Err("unexpected argument "@ + a2[0])
        } else {
            Ok((id, j))
        },
    }
}

/// The parsed command matches the arguments.
pub open spec fn vault_command_matches(args: Seq<Seq<char>>, c: VaultCommand) -> bool {
    args.len() > 0 && match c {
        VaultCommand::CurrentThread { json } => args[0] == "current-thread"@ && json_only_parsed(
            args.skip(1),
        ) == Ok::<bool, Seq<char>>(json),
        VaultCommand::ShareThread { thread_id, json } => args[0] == "share-thread"@
            && share_thread_parsed(args.skip(1)) == Ok::<_, Seq<char>>((thread_id@, json)),
        VaultCommand::ShareCurrentThread { json } => args[0] == "share-current-thread"@
            && json_only_parsed(args.skip(1)) == Ok::<bool, Seq<char>>(json),
    }
}

/// Reads `--json` and refuses anything else.
fn json_only(args: &mut Vec<String>) -> (r: Result<bool, String>)
    ensures
        match r {
            Ok(j) => json_only_parsed(texts(old(args)@)) == Ok::<bool, Seq<char>>(j),
            Err(e) => json_only_parsed(texts(old(args)@)) == Err::<bool, Seq<char>>(e@),
        },
{
    let json = take_bool(args, "--json");
    match reject_extra(args) {
        Ok(()) => Ok(json),
        Err(e) => Err(e),
    }
}

/// The error that a `vault` command line is refused with, if any.
pub open spec fn vault_command_error(args: Seq<Seq<char>>) -> Option<Seq<char>> {
    match subcommand_split(args, "vault"@) {
        Err(e) => Some(e),
        Ok((sub, rest)) => if sub == "current-thread"@ || sub == "share-current-thread"@ {
            err_of(json_only_parsed(rest))
        } else if sub == "share-thread"@ {
            err_of(share_thread_parsed(rest))
        } else {
            Some("unknown vault command "@ + sub)
        },
    }
}

/// Reads a `vault` command (the arguments after `vault`).
pub fn parse_vault_command(argv: Vec<String>) -> (r: Result<VaultCommand, String>)
    ensures
        r matches Ok(c) ==> vault_command_matches(texts(argv@), c),
        r is Ok <==> vault_command_error(texts(argv@)) is None,
        r matches Err(e) ==> vault_command_error(texts(argv@)) == Some(e@),
{
    let mut args = argv;
    let ghost a0 = texts(args@);
    let sub = match pop_subcommand(&mut args, "vault") {
        Ok(s) => s,
        Err(e) => return Err(e),
    };
    assert(texts(args@) =~= a0.skip(1));
    proof {
        reveal_strlit("current-thread");
        reveal_strlit("share-thread");
        reveal_strlit("share-current-thread");
        assert("current-thread"@.len() == 14 && "share-thread"@.len() == 12
            && "share-current-thread"@.len() == 20);
    }
    if str_eq(sub.as_str(), "current-thread") {
        match json_only(&mut args) {
            Ok(json) => Ok(VaultCommand::CurrentThread { json }),
            Err(e) => Err(e),
        }
    } else if str_eq(sub.as_str(), "share-thread") {
        let thread_id = match take_positional(&mut args, "thread-id") {
            Ok(t) => t,
            Err(e) => return Err(e),
        };
        let json = take_bool(&mut args, "--json");
        match reject_extra(&args) {
            Ok(()) => Ok(VaultCommand::ShareThread { thread_id, json }),
            Err(e) => Err(e),
        }
    } else if str_eq(sub.as_str(), "share-current-thread") {
        match json_only(&mut args) {
            Ok(json) => Ok(VaultCommand::ShareCurrentThread { json }),
            Err(e) => Err(e),
        }
    } else {
        Err(concat_str("unknown vault command ", sub.as_str()))
    }
}

/// The share link recorded in a thread context: `shareUrl`, or when that is
/// absent `publicUrl`, if a string.
pub open spec fn context_share_url(ctx: JsonV) -> Option<Seq<char>> {
    match member(ctx, "shareUrl"@) {
        Some(v) => crate::json::str_of(Some(v)),
        None => str_member(ctx, "publicUrl"@),
    }
}

/// The share link recorded in a thread context.
pub fn share_url_of(ctx: &Json) -> (r: Option<String>)
    ensures
        ov(r) == context_share_url(ctx.deep()),
{
    match ctx.get("shareUrl") {
        Some(v) => match v.as_str() {
            Some(s) => Some(owned(s)),
            None => None,
        },
        None => match str_member_of(ctx, "publicUrl") {
            Some(s) => Some(owned(s)),
            None => None,
        },
    }
}

/// The lines `vault current-thread` prints: the thread id and address, and
/// the share link when there is one.
pub open spec fn current_thread_lines_spec(ctx: JsonV) -> Seq<Seq<char>> {
    let id = match str_member(ctx, "threadId"@) {
        Some(t) => t,
        None => Seq::empty(),
    };
    let url = match str_member(ctx, "threadUrl"@) {
        Some(t) => t,
        None => Seq::empty(),
    };
    let head = seq!["thread_id: "@ + id, "thread_url: "@ + url];
    match context_share_url(ctx) {
        Some(s) => head.push("share_url: "@ + s),
        None => head,
    }
}

/// The lines `vault current-thread` prints.
pub fn current_thread_lines(ctx: &Json) -> (r: Vec<String>)
    ensures
        r@.map_values(|s: String| s@) == current_thread_lines_spec(ctx.deep()),
{
    proof {
        reveal_strlit("");
        assert(""@ =~= Seq::<char>::empty());
    }
    let id = match str_member_of(ctx, "threadId") {
        Some(t) => t,
        None => "",
    };
    let url = match str_member_of(ctx, "threadUrl") {
        Some(t) => t,
        None => "",
    };
    let mut out = vec![concat_str("thread_id: ", id), concat_str("thread_url: ", url)];
    let ghost head = out@;
    match share_url_of(ctx) {
        Some(s) => {
            out.push(concat_str("share_url: ", s.as_str()));
        },
        None => {},
    }
    assert(out@.map_values(|s: String| s@) =~= current_thread_lines_spec(ctx.deep()));
    out
}

/// The thread id of a thread context.
pub fn context_thread_id(ctx: &Json) -> (r: Result<String, String>)
    ensures
        match str_member(ctx.deep(), "threadId"@) {
            Some(t) => r matches Ok(v) && v@ == t,
            None => r matches Err(e) && e@ == "current thread context does not contain threadId"@,
        },
{
    match str_member_of(ctx, "threadId") {
        Some(t) => Ok(owned(t)),
        None => Err(owned("current thread context does not contain threadId")),
    }
}

/// `text` contains `part`.
pub open spec fn contains_text(text: Seq<char>, part: Seq<char>) -> bool {
    exists|i: int| 0 <= i && i + part.len() <= text.len() && #[trigger] text.subrange(i, i + part.len()) == part
}

/// Whether `text` contains `/s/`.
fn contains_share_path(text: &str) -> (r: bool)
    ensures
        r == contains_text(text@, seq!['/', 's', '/']),
{
    let v = chars_of_text(text);
    let mut i: usize = 0;
    while v.len() >= 3 && i <= v.len() - 3
        invariant
            v@ == text@,
            v.len() >= 3 ==> i <= v.len() - 2,
            forall|k: int| 0 <= k < i && k + 3 <= v@.len() ==> #[trigger] v@.subrange(k, k + 3) != seq!['/', 's', '/'],
        decreases v.len() - i,
    {
        if v[i] == '/' && v[i + 1] == 's' && v[i + 2] == '/' {
            assert(v@.subrange(i as int, i + 3) =~= seq!['/', 's', '/']);
            return true;
        }
        assert(v@.subrange(i as int, i + 3)[0] == v@[i as int]);
        assert(v@.subrange(i as int, i + 3)[1] == v@[i + 1]);
        assert(v@.subrange(i as int, i + 3)[2] == v@[i + 2]);
        i = i + 1;
    }
    proof {
        if contains_text(text@, seq!['/', 's', '/']) {
            let k = choose|k: int| 0 <= k && k + 3 <= text@.len() && #[trigger] text@.subrange(k, k + 3) == seq!['/', 's', '/'];
            assert(k < i);
        }
    }
    false
}

fn chars_of_text(text: &str) -> (v: Vec<char>)
    ensures
        v@ == text@,
{
    crate::text::chars_of(text)
}

/// The share link of the current thread that can be given out again: a
/// recorded link that points at a share page (`/s/`).
pub open spec fn reusable_share(ctx: JsonV) -> Option<Seq<char>> {
    match context_share_url(ctx) {
        Some(u) => if contains_text(u, seq!['/', 's', '/']) {
            Some(u)
        } else {
            None
        },
        None => None,
    }
}

/// The recorded share link of the current thread, when it can be reused.
pub fn reusable_share_url(ctx: &Json) -> (r: Option<String>)
    ensures
        ov(r) == reusable_share(ctx.deep()),
{
    match share_url_of(ctx) {
        Some(u) => if contains_share_path(u.as_str()) {
            Some(u)
        } else {
            None
        },
        None => None,
    }
}

/// The members with `key` set to `value`: the first member under `key`
/// replaced, or the member added at the end.
pub open spec fn set_member(ms: Seq<(Seq<char>, JsonV)>, key: Seq<char>, value: JsonV) -> Seq<
    (Seq<char>, JsonV),
>
    decreases ms.len(),
{
    if ms.len() == 0 {
        seq![(key, value)]
    } else if ms[0].0 == key {
        seq![(key, value)] + ms.skip(1)
    } else {
        seq![ms[0]] + set_member(ms.skip(1), key, value)
    }
}

/// Sets member `key` of an object's members.
fn set_member_of(members: &mut Vec<(String, Json)>, key: &str, value: Json)
    ensures
        final(members)@.map_values(|m: (String, Json)| (m.0@, m.1.deep())) == set_member(
            old(members)@.map_values(|m: (String, Json)| (m.0@, m.1.deep())),
            key@,
            value.deep(),
        ),
{
    let ghost ms = members@.map_values(|m: (String, Json)| (m.0@, m.1.deep()));
    let ghost vd = value.deep();
    let mut i: usize = 0;
    assert(ms.skip(0) =~= ms);
    while i < members.len()
        invariant
            i <= members.len(),
            members@ == old(members)@,
            ms == members@.map_values(|m: (String, Json)| (m.0@, m.1.deep())),
            vd == value.deep(),
            forall|k: int| 0 <= k < i ==> ms[k].0 != key@,
            set_member(ms, key@, vd) == ms.take(i as int) + set_member(ms.skip(i as int), key@, vd),
        decreases members.len() - i,
    {
        assert(ms.skip(i as int)[0] == ms[i as int]);
        if str_eq(members[i].0.as_str(), key) {
            let ghost before = members@;
            members.set(i, (owned(key), value));
            proof {
                let nm = members@.map_values(|m: (String, Json)| (m.0@, m.1.deep()));
                assert(nm =~= ms.take(i as int) + (seq![(key@, vd)] + ms.skip(i as int).skip(1)));
            }
            return;
        }
        proof {
            assert(ms.skip(i as int).skip(1) =~= ms.skip(i + 1));
            assert(ms.take(i + 1) =~= ms.take(i as int).push(ms[i as int]));
            assert(ms.take(i as int) + (seq![ms[i as int]] + set_member(ms.skip(i + 1), key@, vd)) =~= ms.take(i + 1) + set_member(ms.skip(i + 1), key@, vd));
        }
        i = i + 1;
    }
    members.push((owned(key), value));
    proof {
        assert(ms.take(i as int) =~= ms);
        assert(ms.skip(i as int) =~= Seq::<(Seq<char>, JsonV)>::empty());
        let nm = members@.map_values(|m: (String, Json)| (m.0@, m.1.deep()));
        assert(nm =~= ms + seq![(key@, vd)]);
    }
}

/// The thread context with the share link recorded under `shareUrl` and
/// `publicUrl` (a context that is no object is left as it is).
pub open spec fn context_with_share(ctx: JsonV, url: Seq<char>) -> JsonV {
    match ctx {
        JsonV::Object(ms) => JsonV::Object(
            set_member(set_member(ms, "shareUrl"@, JsonV::Str(url)), "publicUrl"@, JsonV::Str(url)),
        ),
        _ => ctx,
    }
}

/// Records a share link in the thread context.
pub fn with_share_url(ctx: Json, url: &str) -> (r: Json)
    ensures
        r.deep() == context_with_share(ctx.deep(), url@),
{
    match ctx {
        Json::Object(members) => {
            let mut members = members;
            let ghost m0 = members@.map_values(|m: (String, Json)| (m.0@, m.1.deep()));
            assert(Json::Object(members).deep() == JsonV::Object(m0)) by {
                if let JsonV::Object(x) = Json::Object(members).deep() {
                    assert(x =~= m0);
                }
            }
            set_member_of(&mut members, "shareUrl", Json::Str(owned(url)));
            set_member_of(&mut members, "publicUrl", Json::Str(owned(url)));
            let ghost m2 = members@.map_values(|m: (String, Json)| (m.0@, m.1.deep()));
            let r = Json::Object(members);
            assert(r.deep() == JsonV::Object(m2)) by {
                if let JsonV::Object(x) = r.deep() {
                    assert(x =~= m2);
                }
            }
            r
        },
        other => other,
    }
}

/// The block `github pi-threads-block` prints, line by line.
pub fn pi_threads_block(label: &str, share_url: &str) -> (r: Vec<String>)
    ensures
        r@.map_values(|s: String| s@) == seq![
            "<!-- pi-threads:start -->"@,
            "## Pi threads"@,
            "- ["@ + label@ + "]("@ + share_url@ + ")"@,
            "<!-- pi-threads:end -->"@,
        ],
{
    let a = concat3("- [", label, "](");
    let link = concat3(a.as_str(), share_url, ")");
    let r = vec![owned("<!-- pi-threads:start -->"), owned("## Pi threads"), link, owned("<!-- pi-threads:end -->")];
    assert(r@.map_values(|s: String| s@) =~= seq![
        "<!-- pi-threads:start -->"@,
        "## Pi threads"@,
        "- ["@ + label@ + "]("@ + share_url@ + ")"@,
        "<!-- pi-threads:end -->"@,
    ]);
    r
}

/// An `auth` command as given on the command line.
#[derive(Debug, Clone, PartialEq, Eq)]
pub enum AuthCommand {
    /// `auth login`: the token, server and client name given, if any.
    Login { token: Option<String>, base_url: Option<String>, client_name: Option<String> },
    Status,
    /// `auth issue-token`: the client name.
    IssueToken { name: String },
}

/// What `auth login` reads from `args`.
pub open spec fn login_parsed(args: Seq<Seq<char>>) -> Result<
    (Option<Seq<char>>, Option<Seq<char>>, Option<Seq<char>>),
    Seq<char>,
> {
    let (t, a1) = option_taken(args, "--token"@);
    let (b, a2) = option_taken(a1, "--base-url"@);
    let (c, a3) = option_taken(a2, "--client-name"@);
    match (t, b, c) {
        (Err(e), _, _) => Err(e),
        (Ok(_), Err(e), _) => Err(e),
        (Ok(_), Ok(_), Err(e)) => Err(e),
        (Ok(t), Ok(b), Ok(c)) => if a3.len() > 0 {
            Err("unexpected argument "@ + a3[0])
        } else {
            Ok((t, b, c))
        },
    }
}

/// What `auth issue-token` reads from `args`: `--name`, else the first
/// positional argument.
pub open spec fn issue_token_parsed(args: Seq<Seq<char>>) -> Result<Seq<char>, Seq<char>> {
    let (n, a1) = option_taken(args, "--name"@);
    match n {
        Err(e) => Err(e),
        Ok(Some(name)) => if a1.len() > 0 {
            Err("unexpected argument "@ + a1[0])
        } else {
            Ok(name)
        },
        Ok(None) => {
            let (p, a2) = positional_taken(a1, "name"@);
            match p {
                Err(_) => Err("a client name is required (--name \"laptop\")"@),
                Ok(name) => if a2.len() > 0 {
                    Err("unexpected argument "@ + a2[0])
                } else {
                    Ok(name)
                },
            }
        },
    }
}

/// The parsed command matches the arguments.
pub open spec fn auth_command_matches(args: Seq<Seq<char>>, c: AuthCommand) -> bool {
    args.len() > 0 && match c {
        AuthCommand::Login { token, base_url, client_name } => args[0] == "login"@ && login_parsed(
            args.skip(1),
        ) == Ok::<_, Seq<char>>((ov(token), ov(base_url), ov(client_name))),
        AuthCommand::Status => args[0] == "status"@ && args.len() == 1,
        AuthCommand::IssueToken { name } => (args[0] == "issue-token"@ || args[0] == "issue"@)
            && issue_token_parsed(args.skip(1)) == Ok::<_, Seq<char>>(name@),
    }
}

/// The error that an `auth` command line is refused with, if any.
pub open spec fn auth_command_error(args: Seq<Seq<char>>) -> Option<Seq<char>> {
    match subcommand_split(args, "auth"@) {
        Err(e) => Some(e),
        Ok((sub, rest)) => if sub == "login"@ {
            err_of(login_parsed(rest))
        } else if sub == "status"@ {
            extra_refused(rest)
        } else if sub == "issue-token"@ || sub == "issue"@ {
            err_of(issue_token_parsed(rest))
        } else {
            Some("unknown auth command "@ + sub)
        },
    }
}

/// Reads an `auth` command (the arguments after `auth`).
pub fn parse_auth_command(argv: Vec<String>) -> (r: Result<AuthCommand, String>)
    ensures
        r matches Ok(c) ==> auth_command_matches(texts(argv@), c),
        r is Ok <==> auth_command_error(texts(argv@)) is None,
        r matches Err(e) ==> auth_command_error(texts(argv@)) == Some(e@),
{
    let mut args = argv;
    let ghost a0 = texts(args@);
    let sub = match pop_subcommand(&mut args, "auth") {
        Ok(s) => s,
        Err(e) => return Err(e),
    };
    assert(texts(args@) =~= a0.skip(1));
    if str_eq(sub.as_str(), "login") {
        let token = match take_option(&mut args, "--token") {
            Ok(t) => t,
            Err(e) => return Err(e),
        };
        let base_url = match take_option(&mut args, "--base-url") {
            Ok(b) => b,
            Err(e) => return Err(e),
        };
        let client_name = match take_option(&mut args, "--client-name") {
            Ok(c) => c,
            Err(e) => return Err(e),
        };
        match reject_extra(&args) {
            Ok(()) => Ok(AuthCommand::Login { token, base_url, client_name }),
            Err(e) => Err(e),
        }
    } else if str_eq(sub.as_str(), "status") {
        match reject_extra(&args) {
            Ok(()) => Ok(AuthCommand::Status),
            Err(e) => Err(e),
        }
    } else if str_eq(sub.as_str(), "issue-token") || str_eq(sub.as_str(), "issue") {
        let name = match take_option(&mut args, "--name") {
            Ok(Some(n)) => n,
            Ok(None) => match take_positional(&mut args, "name") {
                Ok(n) => n,
                Err(_) => return Err(owned("a client name is required (--name \"laptop\")")),
            },
            Err(e) => return Err(e),
        };
        match reject_extra(&args) {
            Ok(()) => Ok(AuthCommand::IssueToken { name }),
            Err(e) => Err(e),
        }
    } else {
        Err(concat_str("unknown auth command ", sub.as_str()))
    }
}

/// The lines `auth status` prints: the server, whether a token is
/// configured, whether memory is on, and the memory user (`user_id`, already
/// resolved with its defaults).
pub open spec fn auth_status_text(config: Config, env_token: Option<Seq<char>>, user_id: Seq<char>) -> Seq<Seq<char>> {
    let token = match config.token {
        Some(t) => Some(t@),
        None => env_token,
    };
    seq![
        "base_url: "@ + config.base_url@,
        "token: "@ + if token matches Some(t) && t.len() > 0 {
            "configured"@
        } else {
            "missing"@
        },
        "memory_enabled: "@ + bool_word(
            match config.pi_thread_vault_memory_enabled {
                Some(b) => b,
                None => false,
            },
        ),
        "memory_user_id: "@ + user_id,
    ]
}

/// What `auth status` prints, line by line; `env_token` is the token from the
/// environment.
pub fn auth_status_lines(config: &Config, env_token: Option<String>, user_id: &str) -> (r: Vec<String>)
    ensures
        r@.map_values(|s: String| s@) == auth_status_text(*config, crate::json::opt_seq(env_token), user_id@),
{
    let token = configured_token(config, env_token);
    let shown = match &token {
        Ok(t) => present(Some(t.as_str())),
        Err(_) => present(None),
    };
    let enabled = match config.pi_thread_vault_memory_enabled {
        Some(b) => b,
        None => false,
    };
    let r = vec![
        concat_str("base_url: ", config.base_url.as_str()),
        concat_str("token: ", shown),
        concat_str("memory_enabled: ", if enabled { "true" } else { "false" }),
        concat_str("memory_user_id: ", user_id),
    ];
    proof {
        reveal_strlit("true");
        reveal_strlit("false");
    }
    assert(r@.map_values(|s: String| s@) =~= auth_status_text(*config, crate::json::opt_seq(env_token), user_id@));
    r
}

/// The client name `auth issue-token` mints a key for: the given name trimmed,
/// refused when nothing is left.
pub fn issue_token_name(name: &str) -> (r: Result<String, String>)
    ensures
        r is Ok <==> trim(name@).len() > 0,
        r matches Ok(n) ==> n@ == trim(name@),
        r matches Err(e) ==> e@ == "client name cannot be empty"@,
{
    let t = trim_str(name);
    if t.as_str().is_empty() {
        Err(owned("client name cannot be empty"))
    } else {
        Ok(t)
    }
}

} // verus!
