//! Decisions of the memory engine that do not depend on the model service or
//! the vector store: reading model replies and choosing how to store a fact.

use vstd::prelude::*;
use crate::domain::memory::{fact_outcome, MemoryConflictAction, MemoryFact};
use crate::json::{array2, object2, object3, parse_string_list, serde_string_list, Json, JsonV};
use crate::text::{
    chars_of, concat3, concat_str, ends_with_chars, has_prefix, has_suffix, is_err_with, owned,
    split_once, split_once_chars, starts_with_chars, str_eq, string_from_chars, sub_chars, trim,
    trim_chars,
};

verus! {

/// The three backquotes that open and close a Markdown code block.
pub open spec fn fence() -> Seq<char> {
    seq!['`', '`', '`']
}

/// Everything after the first line break, or the whole text when there is none.
pub open spec fn after_first_line(s: Seq<char>) -> Seq<char> {
    match split_once(s, '\n') {
        Some(parts) => parts.1,
        None => s,
    }
}

/// `s` without a closing fence at its end.
pub open spec fn without_closing_fence(s: Seq<char>) -> Seq<char> {
    if has_suffix(s, fence()) {
        s.take(s.len() - 3)
    } else {
        s
    }
}

/// The text of a model reply with Markdown code fencing removed: the trimmed
/// reply, or, when it opens with a fence, what follows the first line with a
/// closing fence dropped, trimmed again.
pub open spec fn code_block_body(s: Seq<char>) -> Seq<char> {
    let t = trim(s);
    if has_prefix(t, fence()) {
        trim(without_closing_fence(after_first_line(t.skip(3))))
    } else {
        t
    }
}

/// Strips Markdown code-block fencing that language models put around JSON.
pub fn strip_code_block(s: &str) -> (r: String)
    ensures
        r@ == code_block_body(s@),
{
    let v = chars_of(s);
    let t = trim_chars(v.as_slice());
    let fence_chars: Vec<char> = vec!['`', '`', '`'];
    assert(fence_chars@ =~= fence());
    if starts_with_chars(t.as_slice(), fence_chars.as_slice()) {
        let rest = sub_chars(t.as_slice(), 3, t.len());
        assert(rest@ =~= t@.skip(3));
        let body = match split_once_chars(rest.as_slice(), '\n') {
            Some((_, after)) => after,
            None => rest,
        };
        let inner = if ends_with_chars(body.as_slice(), fence_chars.as_slice()) {
            let n = body.len() - 3;
            let cut = sub_chars(body.as_slice(), 0, n);
            assert(cut@ =~= body@.take(body@.len() - 3));
            cut
        } else {
            body
        };
        let r = trim_chars(inner.as_slice());
        string_from_chars(r.as_slice())
    } else {
        string_from_chars(t.as_slice())
    }
}

/// The question put to the model when a new fact resembles a stored one.
pub fn conflict_prompt(existing_fact: &str, new_fact: &str) -> (r: String)
    ensures
        r@ == "Existing fact: \""@ + existing_fact@ + "\"\nNew fact: \""@ + new_fact@ + "\""@,
{
    let a = concat_str("Existing fact: \"", existing_fact);
    let b = concat_str(a.as_str(), "\"\nNew fact: \"");
    let c = concat_str(b.as_str(), new_fact);
    concat_str(c.as_str(), "\"")
}

/// Turns the model's conflict verdict into an action: `update` needs a merged
/// fact that parses, `keep_existing` keeps the stored fact, and anything else
/// keeps both.
pub fn conflict_action_from_reply(action: &str, merged_fact: Option<String>) -> (r: Result<
    MemoryConflictAction,
    String,
>)
    ensures
        action@ == "update"@ ==> match merged_fact {
            None => is_err_with(r, "Update action requires merged_fact field"@),
            Some(m) => match r {
                Ok(MemoryConflictAction::Update(f)) => fact_outcome(m@) == Ok::<
                    Seq<char>,
                    Seq<char>,
                >(f@),
                Ok(_) => false,
                Err(e) => fact_outcome(m@) == Err::<Seq<char>, Seq<char>>(e@),
            },
        },
        action@ == "keep_existing"@ ==> r matches Ok(MemoryConflictAction::KeepExisting),
        action@ != "update"@ && action@ != "keep_existing"@ ==> r matches Ok(
            MemoryConflictAction::KeepBoth,
        ),
{
    proof {
        reveal_strlit("update");
        reveal_strlit("keep_existing");
        assert("update"@.len() != "keep_existing"@.len());
    }
    if str_eq(action, "update") {
        match merged_fact {
            None => Err(owned("Update action requires merged_fact field")),
            Some(m) => match MemoryFact::parse(m) {
                Ok(f) => Ok(MemoryConflictAction::Update(f)),
                Err(e) => Err(e),
            },
        }
    } else if str_eq(action, "keep_existing") {
        Ok(MemoryConflictAction::KeepExisting)
    } else {
        Ok(MemoryConflictAction::KeepBoth)
    }
}

/// The two requests made to the model.
#[derive(Debug, Clone, Copy, PartialEq, Eq)]
pub enum ModelTask {
    Extraction,
    ConflictResolution,
}

/// The error for a model reply without choices.
pub open spec fn no_choices_message(task: ModelTask) -> Seq<char> {
    match task {
        ModelTask::Extraction => "No choices in extraction response"@,
        ModelTask::ConflictResolution => "No choices in conflict resolution response"@,
    }
}

/// The message content of the first choice of a model reply (`contents`, the
/// choices' contents in order); a reply without choices is an error.
pub fn first_choice(contents: Vec<String>, task: ModelTask) -> (r: Result<String, String>)
    ensures
        contents@.len() == 0 ==> (r matches Err(e) && e@ == no_choices_message(task)),
        contents@.len() > 0 ==> (r matches Ok(c) && c@ == contents@[0]@),
{
    let mut contents = contents;
    if contents.len() == 0 {
        return Err(match task {
            ModelTask::Extraction => owned("No choices in extraction response"),
            ModelTask::ConflictResolution => owned("No choices in conflict resolution response"),
        });
    }
    Ok(contents.swap_remove(0))
}

/// What a conflict reply yields, given what parsing its cleaned text as a
/// `{action, merged_fact}` object gave (`parsed`, the action and the merged
/// fact, or the parse error's text): the action, or the error.
pub open spec fn conflict_outcome_is(
    reply: Seq<char>,
    parsed: Result<(Seq<char>, Option<Seq<char>>), Seq<char>>,
    r: Result<MemoryConflictAction, String>,
) -> bool {
    match parsed {
        Err(e) => r matches Err(m) && m@ == "Failed to parse conflict resolution response: "@ + e
            + " \u{2014} raw: "@ + code_block_body(reply),
        Ok((action, merged)) => if action == "update"@ {
            match merged {
                None => r matches Err(m) && m@ == "Update action requires merged_fact field"@,
                Some(m) => match r {
                    Ok(MemoryConflictAction::Update(f)) => fact_outcome(m) == Ok::<Seq<char>, Seq<char>>(f@),
                    Ok(_) => false,
                    Err(e) => fact_outcome(m) == Err::<Seq<char>, Seq<char>>(e@),
                },
            }
        } else if action == "keep_existing"@ {
            r matches Ok(MemoryConflictAction::KeepExisting)
        } else {
            r matches Ok(MemoryConflictAction::KeepBoth)
        },
    }
}

/// Reads the model's conflict verdict from its reply; `parsed` is what
/// `serde_json` made of the reply stripped of code fencing.
pub fn conflict_from_reply(reply: &str, parsed: Result<(String, Option<String>), String>) -> (r: Result<
    MemoryConflictAction,
    String,
>)
    ensures
        conflict_outcome_is(
            reply@,
            match parsed {
                Ok((a, m)) => Ok((a@, crate::json::opt_seq(m))),
                Err(e) => Err(e@),
            },
            r,
        ),
{
    match parsed {
        Err(e) => {
            let cleaned = strip_code_block(reply);
            let a = concat_str("Failed to parse conflict resolution response: ", e.as_str());
            let b = concat_str(a.as_str(), " \u{2014} raw: ");
            Err(concat_str(b.as_str(), cleaned.as_str()))
        },
        Ok((action, merged)) => conflict_action_from_reply(action.as_str(), merged),
    }
}

/// How a freshly extracted fact is stored.
#[derive(Debug)]
pub enum UpsertAction {
    /// Store it as a new memory.
    Insert,
    /// Replace the similar stored memory with this merged fact.
    Replace(MemoryFact),
    /// Store nothing: the stored memory already covers it.
    Skip,
}

/// Chooses how to store a fact. `conflict` is `None` when no stored memory is
/// similar enough, and otherwise the outcome of asking the model; a failed
/// resolution keeps both facts.
pub fn upsert_action(conflict: Option<Result<MemoryConflictAction, String>>) -> (r: UpsertAction)
    ensures
        match conflict {
            None => r is Insert,
            Some(Err(_)) => r is Insert,
            Some(Ok(MemoryConflictAction::KeepBoth)) => r is Insert,
            Some(Ok(MemoryConflictAction::KeepExisting)) => r is Skip,
            Some(Ok(MemoryConflictAction::Update(f))) => r matches UpsertAction::Replace(g) && g@
                == f@,
        },
{
    match conflict {
        None => UpsertAction::Insert,
        Some(Err(_)) => UpsertAction::Insert,
        Some(Ok(MemoryConflictAction::KeepBoth)) => UpsertAction::Insert,
        Some(Ok(MemoryConflictAction::KeepExisting)) => UpsertAction::Skip,
        Some(Ok(MemoryConflictAction::Update(f))) => UpsertAction::Replace(f),
    }
}

/// The facts that `MemoryFact::parse` makes of `items`, in order, or the first
/// error it reports.
pub open spec fn facts_outcome(items: Seq<Seq<char>>) -> Result<Seq<Seq<char>>, Seq<char>>
    decreases items.len(),
{
    if items.len() == 0 {
        Ok(Seq::empty())
    } else {
        match facts_outcome(items.drop_last()) {
            Err(e) => Err(e),
            Ok(prev) => match fact_outcome(items.last()) {
                Err(e) => Err(e),
                Ok(t) => Ok(prev.push(t)),
            },
        }
    }
}

/// What the extraction reply `reply` yields: the reply stripped of code
/// fencing must be a JSON array of strings, each of which must be a valid fact.
pub open spec fn extraction_outcome(reply: Seq<char>) -> Result<Seq<Seq<char>>, Seq<char>> {
    let cleaned = code_block_body(reply);
    match serde_string_list(cleaned) {
        Err(e) => Err("Failed to parse extraction response as JSON array: "@ + e + " — raw: "@
            + cleaned),
        Ok(items) => facts_outcome(items),
    }
}

/// Once a prefix of `items` fails, the whole list fails with the same error.
proof fn lemma_facts_prefix_err(items: Seq<Seq<char>>, k: int, e: Seq<char>)
    requires
        0 <= k <= items.len(),
        facts_outcome(items.take(k)) == Err::<Seq<Seq<char>>, Seq<char>>(e),
    ensures
        facts_outcome(items) == Err::<Seq<Seq<char>>, Seq<char>>(e),
    decreases items.len() - k,
{
    if k < items.len() {
        let next = items.take(k + 1);
        assert(next.drop_last() =~= items.take(k));
        lemma_facts_prefix_err(items, k + 1, e);
    } else {
        assert(items.take(k) =~= items);
    }
}

/// Reads the facts of an extraction reply: the reply, stripped of code fencing,
/// must be a JSON array of strings, each a valid fact; the first failure is
/// reported.
pub fn facts_from_reply(reply: &str) -> (r: Result<Vec<MemoryFact>, String>)
    ensures
        match r {
            Ok(facts) => extraction_outcome(reply@) == Ok::<Seq<Seq<char>>, Seq<char>>(
                facts@.map_values(|f: MemoryFact| f@),
            ),
            Err(e) => extraction_outcome(reply@) == Err::<Seq<Seq<char>>, Seq<char>>(e@),
        },
{
    let cleaned = strip_code_block(reply);
    let items = match parse_string_list(cleaned.as_str()) {
        Ok(items) => items,
        Err(e) => {
            let a = concat_str("Failed to parse extraction response as JSON array: ", e.as_str());
            let b = concat_str(a.as_str(), " — raw: ");
            return Err(concat_str(b.as_str(), cleaned.as_str()));
        },
    };
    let ghost all = items@.map_values(|s: String| s@);
    let mut facts: Vec<MemoryFact> = Vec::new();
    let mut i: usize = 0;
    assert(all.take(0) =~= Seq::<Seq<char>>::empty());
    assert(facts@.map_values(|f: MemoryFact| f@) =~= Seq::<Seq<char>>::empty());
    while i < items.len()
        invariant
            i <= items.len(),
            all == items@.map_values(|s: String| s@),
            serde_string_list(cleaned@) == Ok::<Seq<Seq<char>>, Seq<char>>(all),
            cleaned@ == code_block_body(reply@),
            facts_outcome(all.take(i as int)) == Ok::<Seq<Seq<char>>, Seq<char>>(
                facts@.map_values(|f: MemoryFact| f@),
            ),
        decreases items.len() - i,
    {
        proof {
            let next = all.take(i + 1);
            assert(next.drop_last() =~= all.take(i as int));
            assert(next.last() == items@[i as int]@);
        }
        let item = items[i].clone();
        match MemoryFact::parse(item) {
            Ok(f) => {
                let ghost before = facts@;
                facts.push(f);
                assert(facts@.map_values(|g: MemoryFact| g@) =~= before.map_values(
                    |g: MemoryFact| g@,
                ).push(f@));
            },
            Err(e) => {
                proof {
                    lemma_facts_prefix_err(all, i + 1, e@);
                }
                return Err(e);
            },
        }
        i = i + 1;
    }
    assert(all.take(items.len() as int) =~= all);
    Ok(facts)
}

/// The instructions given to the model that extracts facts.
pub const EXTRACTION_SYSTEM_PROMPT: &'static str = "You are a memory extraction assistant. Given user text, extract atomic factual statements worth remembering for future conversations.\n\nRules:\n- Each fact must be a single, self-contained statement\n- Focus on preferences, personal details, work context, and technical choices\n- Skip greetings, filler, procedural language, and questions\n- If no meaningful facts can be extracted, return an empty array\n\nReturn ONLY a JSON array of strings, no other text. Example:\n[\"User prefers Rust over Python\", \"User works at a startup\"]";

/// The instructions given to the model that resolves a conflict between facts.
pub const CONFLICT_SYSTEM_PROMPT: &'static str = "You are resolving a memory conflict. Given an existing stored fact and a new fact, determine the correct action.\n\nRules:\n- If the new fact updates or supersedes the old one (e.g., a preference changed), return \"update\" with the merged/updated fact\n- If both facts are distinct and complementary, return \"keep_both\"\n- If the existing fact already covers the new information, return \"keep_existing\"\n\nReturn ONLY a JSON object, no other text:\n{\"action\": \"update\"|\"keep_both\"|\"keep_existing\", \"merged_fact\": \"...\"}\nThe merged_fact field is required when action is \"update\", optional otherwise.";

/// A chat message with its role and content (members in sorted order, as
/// `serde_json` keeps them).
pub open spec fn chat_message(role: Seq<char>, content: Seq<char>) -> JsonV {
    JsonV::Object(seq![("content"@, JsonV::Str(content)), ("role"@, JsonV::Str(role))])
}

/// A chat-completion request: the system instructions, then the user's
/// message, at temperature zero.
pub open spec fn chat_request(model: Seq<char>, system: Seq<char>, user: Seq<char>) -> JsonV {
    JsonV::Object(
        seq![
            ("messages"@, JsonV::Array(seq![chat_message("system"@, system), chat_message("user"@, user)])),
            ("model"@, JsonV::Str(model)),
            ("temperature"@, JsonV::Number("0.0"@)),
        ],
    )
}

/// An embedding request for `text`.
pub open spec fn embedding_request_of(model: Seq<char>, text: Seq<char>) -> JsonV {
    JsonV::Object(seq![("input"@, JsonV::Str(text)), ("model"@, JsonV::Str(model))])
}

/// The address of the embeddings endpoint.
pub fn embeddings_url(api_base_url: &str) -> (r: String)
    ensures
        r@ == api_base_url@ + "/v1/embeddings"@,
{
    concat_str(api_base_url, "/v1/embeddings")
}

/// The address of the chat-completions endpoint.
pub fn chat_completions_url(api_base_url: &str) -> (r: String)
    ensures
        r@ == api_base_url@ + "/v1/chat/completions"@,
{
    concat_str(api_base_url, "/v1/chat/completions")
}

/// The body of the request that embeds `text`.
pub fn embedding_request(model: &str, text: &str) -> (r: Json)
    ensures
        r.deep() == embedding_request_of(model@, text@),
{
    object2("input", Json::Str(owned(text)), "model", Json::Str(owned(model)))
}

/// A chat message.
fn chat_message_json(role: &str, content: &str) -> (r: Json)
    ensures
        r.deep() == chat_message(role@, content@),
{
    object2("content", Json::Str(owned(content)), "role", Json::Str(owned(role)))
}

/// A chat-completion request.
fn chat_request_json(model: &str, system: &str, user: &str) -> (r: Json)
    ensures
        r.deep() == chat_request(model@, system@, user@),
{
    let messages = array2(chat_message_json("system", system), chat_message_json("user", user));
    object3(
        "messages",
        messages,
        "model",
        Json::Str(owned(model)),
        "temperature",
        Json::Number(owned("0.0")),
    )
}

/// The body of the request that extracts facts from `text`.
pub fn extraction_request(model: &str, text: &str) -> (r: Json)
    ensures
        r.deep() == chat_request(model@, EXTRACTION_SYSTEM_PROMPT@, text@),
{
    chat_request_json(model, EXTRACTION_SYSTEM_PROMPT, text)
}

/// The body of the request that resolves a conflict between a stored fact
/// and a new one.
pub fn conflict_request(model: &str, existing_fact: &str, new_fact: &str) -> (r: Json)
    ensures
        r.deep() == chat_request(
            model@,
            CONFLICT_SYSTEM_PROMPT@,
            "Existing fact: \""@ + existing_fact@ + "\"\nNew fact: \""@ + new_fact@ + "\""@,
        ),
{
    let prompt = conflict_prompt(existing_fact, new_fact);
    chat_request_json(model, CONFLICT_SYSTEM_PROMPT, prompt.as_str())
}

/// The vector-store filter that selects the active memories of a user.
pub fn active_user_filter(user_id: &str) -> (r: String)
    ensures
        r@ == "user_id = '"@ + user_id@ + "' AND is_active = true"@,
{
    concat3("user_id = '", user_id, "' AND is_active = true")
}

/// The vector-store filter that selects one memory by id.
pub fn memory_id_filter(id: &str) -> (r: String)
    ensures
        r@ == "id = '"@ + id@ + "'"@,
{
    concat3("id = '", id, "'")
}

} // verus!
