//! Memory-engine value types.

use vstd::prelude::*;
use crate::text::{byte_len, is_err_with, lemma_trim_shape, owned, str_byte_len, str_eq, trim, trim_str, concat_str};

verus! {

/// Largest accepted user id, in bytes.
pub const MEMORY_USER_ID_MAX_LEN: usize = 256;
/// Largest accepted raw text, in bytes.
pub const RAW_MEMORY_TEXT_MAX_LEN: usize = 102_400;
/// Largest accepted query, in bytes.
pub const MEMORY_QUERY_MAX_LEN: usize = 10_240;
/// Largest accepted fact, in bytes.
pub const MEMORY_FACT_MAX_LEN: usize = 4096;

/// A trimmed value is kept when it is non-empty and at most `max` bytes long.
pub open spec fn trimmed_within(value: Seq<char>, max: nat) -> bool {
    trim(value).len() > 0 && byte_len(trim(value)) <= max
}

/// A raw value is kept when it is non-empty and at most `max` bytes long.
pub open spec fn nonempty_within(value: Seq<char>, max: nat) -> bool {
    value.len() > 0 && byte_len(value) <= max
}

/// Identifier of the user a memory belongs to: trimmed, non-empty, at most 256 bytes.
#[derive(Debug)]
pub struct MemoryUserId(String);

impl View for MemoryUserId {
    type V = Seq<char>;

    closed spec fn view(&self) -> Seq<char> {
        self.0@
    }
}

impl MemoryUserId {
    #[verifier::type_invariant]
    closed spec fn inv(self) -> bool {
        self.0@ == trim(self.0@) && trimmed_within(self.0@, 256)
    }

    /// Trims `value` and accepts it when the result is non-empty and at most 256 bytes.
    pub fn parse(value: String) -> (r: Result<Self, String>)
        ensures
            r is Ok <==> trimmed_within(value@, 256),
            r matches Ok(id) ==> id@ == trim(value@),
            trim(value@).len() == 0 ==> is_err_with(r, "user_id must not be empty"@),
            trim(value@).len() > 0 && !trimmed_within(value@, 256) ==> is_err_with(
                r,
                "user_id must not exceed 256 characters"@,
            ),
    {
        let t = trim_str(value.as_str());
        if t.as_str().is_empty() {
            return Err(owned("user_id must not be empty"));
        }
        if str_byte_len(t.as_str()) > MEMORY_USER_ID_MAX_LEN {
            return Err(owned("user_id must not exceed 256 characters"));
        }
        proof {
            lemma_trim_shape(value@);
        }
        Ok(MemoryUserId(t))
    }

    /// The stored identifier; it is always trimmed, non-empty and at most 256 bytes.
    pub fn as_str(&self) -> (r: &str)
        ensures
            r@ == self@,
            r@ == trim(r@),
            trimmed_within(r@, 256),
    {
        proof {
            use_type_invariant(self);
        }
        self.0.as_str()
    }

    /// The identifier as an owned string (its display form).
    pub fn to_string(&self) -> (r: String)
        ensures
            r@ == self@,
    {
        owned(self.0.as_str())
    }
}

impl Clone for MemoryUserId {
    fn clone(&self) -> (r: Self)
        ensures
            r@ == self@,
    {
        proof {
            use_type_invariant(self);
        }
        MemoryUserId(self.0.clone())
    }
}

/// Raw text submitted for fact extraction: non-empty, at most 100 KiB.
#[derive(Debug)]
pub struct RawMemoryText(String);

impl View for RawMemoryText {
    type V = Seq<char>;

    closed spec fn view(&self) -> Seq<char> {
        self.0@
    }
}

impl RawMemoryText {
    #[verifier::type_invariant]
    closed spec fn inv(self) -> bool {
        nonempty_within(self.0@, 102_400)
    }

    /// Accepts `value` unchanged when it is non-empty and at most 102 400 bytes.
    pub fn parse(value: String) -> (r: Result<Self, String>)
        ensures
            r is Ok <==> nonempty_within(value@, 102_400),
            r matches Ok(t) ==> t@ == value@,
            !nonempty_within(value@, 102_400) ==> is_err_with(
                r,
                "text must be between 1 and 100KB"@,
            ),
    {
        if value.as_str().is_empty() || str_byte_len(value.as_str()) > RAW_MEMORY_TEXT_MAX_LEN {
            return Err(owned("text must be between 1 and 100KB"));
        }
        Ok(RawMemoryText(value))
    }

    pub fn as_str(&self) -> (r: &str)
        ensures
            r@ == self@,
            nonempty_within(r@, 102_400),
    {
        proof {
            use_type_invariant(self);
        }
        self.0.as_str()
    }
}

/// A semantic search query: non-empty, at most 10 KiB.
#[derive(Debug)]
pub struct MemoryQuery(String);

impl View for MemoryQuery {
    type V = Seq<char>;

    closed spec fn view(&self) -> Seq<char> {
        self.0@
    }
}

impl MemoryQuery {
    #[verifier::type_invariant]
    closed spec fn inv(self) -> bool {
        nonempty_within(self.0@, 10_240)
    }

    /// Accepts `value` unchanged when it is non-empty and at most 10 240 bytes.
    pub fn parse(value: String) -> (r: Result<Self, String>)
        ensures
            r is Ok <==> nonempty_within(value@, 10_240),
            r matches Ok(q) ==> q@ == value@,
            !nonempty_within(value@, 10_240) ==> is_err_with(
                r,
                "query must be between 1 and 10KB"@,
            ),
    {
        if value.as_str().is_empty() || str_byte_len(value.as_str()) > MEMORY_QUERY_MAX_LEN {
            return Err(owned("query must be between 1 and 10KB"));
        }
        Ok(MemoryQuery(value))
    }

    pub fn as_str(&self) -> (r: &str)
        ensures
            r@ == self@,
            nonempty_within(r@, 10_240),
    {
        proof {
            use_type_invariant(self);
        }
        self.0.as_str()
    }
}

/// What `MemoryFact::parse` gives for `value`: the trimmed text, or the error message.
pub open spec fn fact_outcome(value: Seq<char>) -> Result<Seq<char>, Seq<char>> {
    if trim(value).len() == 0 {
        Err("memory fact must not be empty"@)
    } else if byte_len(trim(value)) > 4096 {
        Err("memory fact must not exceed 4096 bytes"@)
    } else {
        Ok(trim(value))
    }
}

/// A single extracted fact: trimmed, non-empty, at most 4096 bytes.
#[derive(Debug)]
pub struct MemoryFact(String);

impl View for MemoryFact {
    type V = Seq<char>;

    closed spec fn view(&self) -> Seq<char> {
        self.0@
    }
}

impl MemoryFact {
    #[verifier::type_invariant]
    closed spec fn inv(self) -> bool {
        self.0@ == trim(self.0@) && trimmed_within(self.0@, 4096)
    }

    /// Trims `value` and accepts it when the result is non-empty and at most 4096 bytes.
    pub fn parse(value: String) -> (r: Result<Self, String>)
        ensures
            r is Ok <==> trimmed_within(value@, 4096),
            r matches Ok(f) ==> f@ == trim(value@),
            trim(value@).len() == 0 ==> is_err_with(r, "memory fact must not be empty"@),
            trim(value@).len() > 0 && !trimmed_within(value@, 4096) ==> is_err_with(
                r,
                "memory fact must not exceed 4096 bytes"@,
            ),
            match r {
                Ok(f) => fact_outcome(value@) == Ok::<Seq<char>, Seq<char>>(f@),
                Err(e) => fact_outcome(value@) == Err::<Seq<char>, Seq<char>>(e@),
            },
    {
        let t = trim_str(value.as_str());
        if t.as_str().is_empty() {
            return Err(owned("memory fact must not be empty"));
        }
        if str_byte_len(t.as_str()) > MEMORY_FACT_MAX_LEN {
            return Err(owned("memory fact must not exceed 4096 bytes"));
        }
        proof {
            lemma_trim_shape(value@);
        }
        Ok(MemoryFact(t))
    }

    pub fn as_str(&self) -> (r: &str)
        ensures
            r@ == self@,
            r@ == trim(r@),
            trimmed_within(r@, 4096),
    {
        proof {
            use_type_invariant(self);
        }
        self.0.as_str()
    }
}

impl Clone for MemoryFact {
    fn clone(&self) -> (r: Self)
        ensures
            r@ == self@,
    {
        proof {
            use_type_invariant(self);
        }
        MemoryFact(self.0.clone())
    }
}

/// Number of results a memory search returns, between 1 and 100.
#[derive(Debug, Clone, Copy, PartialEq, Eq)]
pub struct SearchLimit(i64);

impl View for SearchLimit {
    type V = int;

    closed spec fn view(&self) -> int {
        self.0 as int
    }
}

impl SearchLimit {
    #[verifier::type_invariant]
    closed spec fn inv(self) -> bool {
        1 <= self.0 <= 100
    }

    /// Accepts limits from 1 to 100 inclusive.
    pub fn parse(value: i64) -> (r: Result<Self, String>)
        ensures
            r is Ok <==> 1 <= value <= 100,
            r matches Ok(l) ==> l@ == value,
            !(1 <= value <= 100) ==> is_err_with(r, "search limit must be between 1 and 100"@),
    {
        if !(1 <= value && value <= 100) {
            return Err(owned("search limit must be between 1 and 100"));
        }
        Ok(SearchLimit(value))
    }

    pub fn get(self) -> (r: i64)
        ensures
            r == self@,
            1 <= r <= 100,
    {
        proof {
            use_type_invariant(&self);
        }
        self.0
    }
}

/// Processing state of a queued extraction job.
#[derive(Debug, Clone, Copy, PartialEq, Eq)]
pub enum MemoryExtractionStatus {
    Pending,
    Processing,
    Failed,
    DeadLetter,
}

/// The textual form of each status.
pub open spec fn extraction_status_text(s: MemoryExtractionStatus) -> Seq<char> {
    match s {
        MemoryExtractionStatus::Pending => "pending"@,
        MemoryExtractionStatus::Processing => "processing"@,
        MemoryExtractionStatus::Failed => "failed"@,
        MemoryExtractionStatus::DeadLetter => "dead_letter"@,
    }
}

impl MemoryExtractionStatus {
    /// Reads one of `pending`, `processing`, `failed` or `dead_letter`.
    pub fn parse(value: &str) -> (r: Result<Self, String>)
        ensures
            r is Ok <==> (value@ == "pending"@ || value@ == "processing"@ || value@ == "failed"@
                || value@ == "dead_letter"@),
            r matches Ok(s) ==> extraction_status_text(s) == value@,
            r is Err ==> is_err_with(r, "unknown memory extraction status: "@ + value@),
    {
        if str_eq(value, "pending") {
            Ok(MemoryExtractionStatus::Pending)
        } else if str_eq(value, "processing") {
            Ok(MemoryExtractionStatus::Processing)
        } else if str_eq(value, "failed") {
            Ok(MemoryExtractionStatus::Failed)
        } else if str_eq(value, "dead_letter") {
            Ok(MemoryExtractionStatus::DeadLetter)
        } else {
            Err(concat_str("unknown memory extraction status: ", value))
        }
    }

    /// The textual form stored in the queue table.
    pub fn as_str(self) -> (r: &'static str)
        ensures
            r@ == extraction_status_text(self),
    {
        match self {
            MemoryExtractionStatus::Pending => "pending",
            MemoryExtractionStatus::Processing => "processing",
            MemoryExtractionStatus::Failed => "failed",
            MemoryExtractionStatus::DeadLetter => "dead_letter",
        }
    }
}

/// What to do when a new fact conflicts with a stored one.
#[derive(Debug, Clone)]
pub enum MemoryConflictAction {
    Update(MemoryFact),
    KeepBoth,
    KeepExisting,
}

} // verus!
