//! Minting vault API keys.

use vstd::prelude::*;
use crate::domain::api_key::{
    token_hash_text, valid_api_token, valid_client_name, ApiClientName, ApiToken, ApiTokenHash,
};
use crate::domain::prefixed_id::{prefixed_id_error, valid_prefixed_id, ApiClientId};
use crate::cli::args::texts;
use crate::primitives::{debug_quoted, debug_quoted_text};
use crate::text::{append_str, concat3, concat_str, is_err_with, owned, str_eq, trim, trim_str};

verus! {

/// The plaintext token surfaced to the operator exactly once at creation time.
#[derive(Debug)]
pub struct GeneratedKey {
    pub client_id: String,
    pub name: String,
    pub plaintext_token: String,
    pub token_prefix: String,
    pub created_at: String,
}

/// A fresh API token in plaintext.
pub fn generate_token() -> (r: String)
    ensures
        valid_api_token(r@),
{
    let t = ApiToken::generate();
    owned(t.expose_secret())
}

/// Everything `issue_api_key` stores and returns, minted for `name` at `now`:
/// the key shown to the operator and the hash that is persisted. Fails when
/// the name is refused.
pub fn mint_api_key(name: &str, now: String) -> (r: Result<(GeneratedKey, ApiTokenHash), String>)
    ensures
        r is Ok <==> valid_client_name(name@),
        r matches Ok((key, hash)) ==> {
            &&& valid_api_token(key.plaintext_token@)
            &&& hash@ == token_hash_text(key.plaintext_token@)
            &&& key.token_prefix@ == key.plaintext_token@.take(12)
            &&& valid_prefixed_id(key.client_id@, "clt_"@)
            &&& key.created_at@ == now@
            &&& key.name@ == trim(name@)
        },
        trim(name@).len() == 0 ==> is_err_with(r, "client name is required"@),
        trim(name@).len() > 128 ==> is_err_with(r, "client name must not exceed 128 characters"@),
{
    let parsed = match ApiClientName::parse(owned(name)) {
        Ok(n) => n,
        Err(e) => return Err(e),
    };
    let token = ApiToken::generate();
    let hash = token.hash();
    let prefix = token.display_prefix();
    let client_id = ApiClientId::generate();
    let key = GeneratedKey {
        client_id: client_id.to_string(),
        name: parsed.to_string(),
        plaintext_token: owned(token.expose_secret()),
        token_prefix: prefix,
        created_at: now,
    };
    Ok((key, hash))
}

/// What the key-minting command line asks for.
#[derive(Debug, Clone, PartialEq, Eq)]
pub enum ClientNameArgs {
    /// Print the help text and stop.
    Help,
    /// Mint a key for this client name (trimmed).
    Name(String),
}

/// Reads the arguments left to read with the name found so far: whether help
/// is asked for and the name, or the error.
pub open spec fn name_scan(args: Seq<Seq<char>>, name: Option<Seq<char>>) -> Result<
    (bool, Option<Seq<char>>),
    Seq<char>,
>
    decreases args.len(),
{
    if args.len() == 0 {
        Ok((false, name))
    } else if args[0] == "--help"@ || args[0] == "-h"@ {
        Ok((true, name))
    } else if args[0] == "--name"@ {
        if args.len() < 2 {
            Err("--name requires a value"@)
        } else {
            name_scan(args.skip(2), Some(args[1]))
        }
    } else if name is None && !(args[0].len() > 0 && args[0][0] == '-') {
        name_scan(args.skip(1), Some(args[0]))
    } else {
        Err("unexpected argument "@ + args[0])
    }
}

/// What the command line yields: `Ok(None)` asks for help, `Ok(Some(name))`
/// is the trimmed client name.
pub open spec fn client_name_outcome(args: Seq<Seq<char>>) -> Result<Option<Seq<char>>, Seq<char>> {
    match name_scan(args, None) {
        Err(e) => Err(e),
        Ok((true, _)) => Ok(None),
        Ok((false, None)) => Err("a client name is required (--name \"Pi extension on laptop\")"@),
        Ok((false, Some(n))) => if trim(n).len() == 0 {
            Err("client name cannot be empty"@)
        } else {
            Ok(Some(trim(n)))
        },
    }
}

/// Reads the client name from the command line of the key-minting command
/// (the arguments after the program name): `--name NAME` or the first
/// positional argument.
pub fn parse_name(argv: Vec<String>) -> (r: Result<ClientNameArgs, String>)
    ensures
        match r {
            Ok(ClientNameArgs::Help) => client_name_outcome(texts(argv@)) is Ok && client_name_outcome(
                texts(argv@),
            )->Ok_0 is None,
            Ok(ClientNameArgs::Name(n)) => client_name_outcome(texts(argv@)) == Ok::<_, Seq<char>>(
                Some(n@),
            ),
            Err(e) => client_name_outcome(texts(argv@)) == Err::<Option<Seq<char>>, Seq<char>>(e@),
        },
{
    let ghost all = texts(argv@);
    let mut name: Option<String> = None;
    let mut i: usize = 0;
    proof {
        reveal_strlit("--help");
        reveal_strlit("-h");
        reveal_strlit("--name");
        assert(all.skip(0) =~= all);
    }
    while i < argv.len()
        invariant
            i <= argv.len(),
            all == texts(argv@),
            name_scan(all, None) == name_scan(all.skip(i as int), crate::json::opt_seq(name)),
        decreases argv.len() - i,
    {
        let a = argv[i].as_str();
        let ghost rest = all.skip(i as int);
        assert(rest[0] == a@);
        if str_eq(a, "--help") || str_eq(a, "-h") {
            return Ok(ClientNameArgs::Help);
        } else if str_eq(a, "--name") {
            if i + 1 >= argv.len() {
                return Err(owned("--name requires a value"));
            }
            assert(rest[1] == argv@[i + 1]@);
            name = Some(owned(argv[i + 1].as_str()));
            assert(rest.skip(2) =~= all.skip(i + 2));
            i = i + 2;
        } else {
            let dash = match a.chars().next() {
                Some(c) => c == '-',
                None => false,
            };
            proof {
                if a@.len() > 0 {
                    assert(a@[0] == a@.first());
                }
            }
            if name.is_none() && !dash {
                name = Some(owned(a));
                assert(rest.skip(1) =~= all.skip(i + 1));
                i = i + 1;
            } else {
                return Err(concat_str("unexpected argument ", a));
            }
        }
    }
    assert(all.skip(i as int) =~= Seq::<Seq<char>>::empty());
    match name {
        None => Err(owned("a client name is required (--name \"Pi extension on laptop\")")),
        Some(n) => {
            let t = trim_str(n.as_str());
            if t.as_str().is_empty() {
                Err(owned("client name cannot be empty"))
            } else {
                Ok(ClientNameArgs::Name(t))
            }
        },
    }
}

/// What is printed on the error stream after a key is minted, before the
/// plaintext token alone goes to the standard output; `noun` names the
/// credential ("API key" or "API token").
pub open spec fn issued_key_text(key: GeneratedKey, noun: Seq<char>) -> Seq<Seq<char>> {
    seq![
        "Issued "@ + noun + " for "@ + debug_quoted_text(key.name@),
        "  client_id    "@ + key.client_id@,
        "  token_prefix "@ + key.token_prefix@,
        "  created_at   "@ + key.created_at@,
        Seq::empty(),
        "Copy the token below now \u{2014} it will not be shown again."@,
        Seq::empty(),
    ]
}

/// The report on a minted key: the lines for the error stream, then the
/// plaintext token for the standard output.
pub fn issued_key_report(key: &GeneratedKey, noun: &str) -> (r: (Vec<String>, String))
    ensures
        r.0@.map_values(|s: String| s@) == issued_key_text(*key, noun@),
        r.1@ == key.plaintext_token@,
{
    let mut first = concat3("Issued ", noun, " for ");
    append_str(&mut first, debug_quoted(key.name.as_str()).as_str());
    let lines = vec![
        first,
        concat_str("  client_id    ", key.client_id.as_str()),
        concat_str("  token_prefix ", key.token_prefix.as_str()),
        concat_str("  created_at   ", key.created_at.as_str()),
        String::new(),
        owned("Copy the token below now \u{2014} it will not be shown again."),
        String::new(),
    ];
    assert(lines@.map_values(|s: String| s@) =~= issued_key_text(*key, noun@));
    (lines, key.plaintext_token.clone())
}

/// A row of the API client table as the key checks read it: the client's
/// id, the stored hash of its token, and when it was revoked, if it was.
#[derive(Debug, Clone)]
pub struct ClientRow {
    pub id: String,
    pub api_token_hash: String,
    pub revoked_at: Option<String>,
}

/// A client row as plain values.
pub struct ClientRowV {
    pub id: Seq<char>,
    pub api_token_hash: Seq<char>,
    pub revoked_at: Option<Seq<char>>,
}

impl ClientRow {
    pub open spec fn view_row(self) -> ClientRowV {
        ClientRowV {
            id: self.id@,
            api_token_hash: self.api_token_hash@,
            revoked_at: crate::json::opt_seq(self.revoked_at),
        }
    }
}

/// The table as plain values.
pub open spec fn rows_view(rows: Seq<ClientRow>) -> Seq<ClientRowV> {
    rows.map_values(|r: ClientRow| r.view_row())
}

/// Client `id` authenticates with the token whose hash is `hash`: a row of
/// that client holds the hash and is not revoked (what the lookup of
/// `require_api_token` selects).
pub open spec fn authenticates(rows: Seq<ClientRowV>, hash: Seq<char>, id: Seq<char>) -> bool {
    exists|i: int|
        0 <= i < rows.len() && #[trigger] rows[i].id == id && rows[i].api_token_hash == hash
            && rows[i].revoked_at is None
}

/// A live (unrevoked) row of client `id` exists.
pub open spec fn has_live_row(rows: Seq<ClientRowV>, id: Seq<char>) -> bool {
    exists|i: int| 0 <= i < rows.len() && #[trigger] rows[i].id == id && rows[i].revoked_at is None
}

/// The table after revoking client `id` at `now`: its live rows get
/// `revoked_at = now` and are kept; every other row is unchanged.
pub open spec fn revoked_rows(rows: Seq<ClientRowV>, id: Seq<char>, now: Seq<char>) -> Seq<ClientRowV> {
    rows.map_values(
        |r: ClientRowV|
            if r.id == id && r.revoked_at is None {
                ClientRowV { id: r.id, api_token_hash: r.api_token_hash, revoked_at: Some(now) }
            } else {
                r
            },
    )
}

/// Revokes client `client_id` at `now` (`revoke_api_key`, the table given as
/// rows): a malformed id is refused and nothing changes; otherwise the
/// client's live rows are soft-deleted and the result says whether there was
/// one.
pub fn revoke_client(rows: Vec<ClientRow>, client_id: String, now: &str) -> (r: (Vec<ClientRow>, Result<bool, String>))
    ensures
        !valid_prefixed_id(client_id@, "clt_"@) ==> (r.1 matches Err(e) && e@ == prefixed_id_error(
            client_id@,
            "ApiClientId"@,
            "clt_"@,
        ) && rows_view(r.0@) == rows_view(rows@)),
        valid_prefixed_id(client_id@, "clt_"@) ==> (r.1 == Ok::<bool, String>(
            has_live_row(rows_view(rows@), client_id@),
        ) && rows_view(r.0@) == revoked_rows(rows_view(rows@), client_id@, now@)),
{
    let ghost before = rows_view(rows@);
    let id = match ApiClientId::parse(client_id) {
        Ok(id) => id,
        Err(e) => return (rows, Err(e)),
    };
    let ghost want = revoked_rows(before, id@, now@);
    let mut out: Vec<ClientRow> = Vec::new();
    let mut found = false;
    let mut i: usize = 0;
    while i < rows.len()
        invariant
            i <= rows.len(),
            before == rows_view(rows@),
            want == revoked_rows(before, id@, now@),
            out@.len() == i,
            forall|k: int| 0 <= k < i ==> #[trigger] rows_view(out@)[k] == want[k],
            found == exists|k: int| 0 <= k < i && #[trigger] before[k].id == id@ && before[k].revoked_at is None,
        decreases rows.len() - i,
    {
        let row = &rows[i];
        let live = str_eq(row.id.as_str(), id.as_str()) && row.revoked_at.is_none();
        let new_row = if live {
            ClientRow { id: row.id.clone(), api_token_hash: row.api_token_hash.clone(), revoked_at: Some(owned(now)) }
        } else {
            let revoked_at = match &row.revoked_at {
                Some(t) => Some(t.clone()),
                None => None,
            };
            ClientRow { id: row.id.clone(), api_token_hash: row.api_token_hash.clone(), revoked_at }
        };
        assert(before[i as int] == rows@[i as int].view_row());
        assert(new_row.view_row() == want[i as int]);
        let ghost prev = out@;
        out.push(new_row);
        assert forall|k: int| 0 <= k < i + 1 implies #[trigger] rows_view(out@)[k] == want[k] by {
            assert(rows_view(out@)[k] == out@[k].view_row());
            if k < i {
                assert(out@[k] == prev[k]);
                assert(rows_view(prev)[k] == want[k]);
            }
        }
        if live {
            assert(before[i as int].id == id@ && before[i as int].revoked_at is None);
            found = true;
        }
        i = i + 1;
    }
    assert(rows_view(out@) =~= want);
    (out, Ok(found))
}

/// The client that a token hash authenticates (the first live row holding
/// it), if any.
pub fn authenticated_client(rows: &Vec<ClientRow>, hash: &str) -> (r: Option<String>)
    ensures
        r matches Some(id) ==> authenticates(rows_view(rows@), hash@, id@),
        r is None ==> forall|id: Seq<char>| !authenticates(rows_view(rows@), hash@, id),
{
    let ghost v = rows_view(rows@);
    let mut i: usize = 0;
    while i < rows.len()
        invariant
            i <= rows.len(),
            v == rows_view(rows@),
            forall|k: int| 0 <= k < i ==> !(#[trigger] v[k].api_token_hash == hash@ && v[k].revoked_at is None),
        decreases rows.len() - i,
    {
        assert(v[i as int] == rows@[i as int].view_row());
        if str_eq(rows[i].api_token_hash.as_str(), hash) && rows[i].revoked_at.is_none() {
            let id = rows[i].id.clone();
            assert(v[i as int].id == id@);
            return Some(id);
        }
        i = i + 1;
    }
    assert forall|id: Seq<char>| !authenticates(v, hash@, id) by {
        if authenticates(v, hash@, id) {
            let k = choose|k: int|
                0 <= k < v.len() && #[trigger] v[k].id == id && v[k].api_token_hash == hash@
                    && v[k].revoked_at is None;
            assert(!(v[k].api_token_hash == hash@ && v[k].revoked_at is None));
        }
    }
    None
}

/// A revoked key no longer authenticates: after client `id` is revoked, no
/// token hash authenticates it, and every other client authenticates exactly
/// as before.
pub proof fn lemma_revoked_client_is_refused(rows: Seq<ClientRowV>, id: Seq<char>, now: Seq<char>, hash: Seq<char>, other: Seq<char>)
    ensures
        !authenticates(revoked_rows(rows, id, now), hash, id),
        other != id ==> (authenticates(revoked_rows(rows, id, now), hash, other) <==> authenticates(
            rows,
            hash,
            other,
        )),
{
    let after = revoked_rows(rows, id, now);
    if authenticates(after, hash, id) {
        let k = choose|k: int|
            0 <= k < after.len() && #[trigger] after[k].id == id && after[k].api_token_hash == hash
                && after[k].revoked_at is None;
        assert(after[k] == (if rows[k].id == id && rows[k].revoked_at is None {
            ClientRowV { id: rows[k].id, api_token_hash: rows[k].api_token_hash, revoked_at: Some(now) }
        } else {
            rows[k]
        }));
    }
    if other != id {
        if authenticates(after, hash, other) {
            let k = choose|k: int|
                0 <= k < after.len() && #[trigger] after[k].id == other && after[k].api_token_hash
                    == hash && after[k].revoked_at is None;
            assert(rows[k].id == other);
        }
        if authenticates(rows, hash, other) {
            let k = choose|k: int|
                0 <= k < rows.len() && #[trigger] rows[k].id == other && rows[k].api_token_hash
                    == hash && rows[k].revoked_at is None;
            assert(after[k] == rows[k]);
        }
    }
}

} // verus!
