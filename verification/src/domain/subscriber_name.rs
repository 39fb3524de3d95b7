//! Optional display names given by newsletter subscribers.

use vstd::prelude::*;
use crate::text::{chars_of, concat_str, trim, trim_str};

verus! {

/// Number of extended grapheme clusters in `s`.
pub uninterp spec fn grapheme_count(s: Seq<char>) -> nat;

/// `unicode_segmentation::UnicodeSegmentation::graphemes(s, true).count()`.
/// Every grapheme cluster holds at least one character, and a non-empty text
/// has at least one cluster. ASCII text without a carriage return has one
/// cluster per character: among ASCII characters only CR before LF joins a
/// cluster (UAX #29 rule GB3); no ASCII character extends, prepends or is a
/// spacing mark.
#[verifier::external_body]
pub(crate) fn count_graphemes(s: &str) -> (n: usize)
    ensures
        n == grapheme_count(s@),
        n <= s@.len(),
        s@.len() > 0 ==> n >= 1,
        (forall|i: int| 0 <= i < s@.len() ==> (#[trigger] s@[i]) <= '\u{7f}' && s@[i] != '\r')
            ==> n == s@.len(),
{
    unicode_segmentation::UnicodeSegmentation::graphemes(s, true).count()
}

/// The characters a name may not contain.
pub open spec fn is_forbidden_name_char(c: char) -> bool {
    c == '/' || c == '(' || c == ')' || c == '"' || c == '<' || c == '>' || c == '\\' || c == '{'
        || c == '}'
}

pub open spec fn has_forbidden_char(v: Seq<char>) -> bool {
    exists|i: int| 0 <= i < v.len() && is_forbidden_name_char(#[trigger] v[i])
}

/// A non-blank name is accepted when it has at most 256 graphemes and no forbidden character.
pub open spec fn valid_subscriber_name(v: Seq<char>) -> bool {
    grapheme_count(v) <= 256 && !has_forbidden_char(v)
}

fn find_forbidden(v: &[char]) -> (r: bool)
    ensures
        r == has_forbidden_char(v@),
{
    let mut i: usize = 0;
    while i < v.len()
        invariant
            i <= v.len(),
            forall|k: int| 0 <= k < i ==> !is_forbidden_name_char(#[trigger] v@[k]),
        decreases v.len() - i,
    {
        let c = v[i];
        if c == '/' || c == '(' || c == ')' || c == '"' || c == '<' || c == '>' || c == '\\' || c
            == '{' || c == '}' {
            assert(is_forbidden_name_char(v@[i as int]));
            return true;
        }
        i = i + 1;
    }
    false
}

/// A subscriber's name, kept as given.
#[derive(Debug)]
pub struct SubscriberName(String);

impl View for SubscriberName {
    type V = Seq<char>;

    closed spec fn view(&self) -> Seq<char> {
        self.0@
    }
}

impl SubscriberName {
    /// A missing or blank name is no name; any other name must have at most
    /// 256 graphemes and none of `/ ( ) " < > \ { }`.
    pub fn parse(s: Option<String>) -> (r: Result<Option<SubscriberName>, String>)
        ensures
            s is None ==> r == Ok::<Option<SubscriberName>, String>(None),
            s matches Some(v) ==> {
                &&& trim(v@).len() == 0 ==> r == Ok::<Option<SubscriberName>, String>(None)
                &&& trim(v@).len() > 0 && valid_subscriber_name(v@) ==> (r matches Ok(Some(n))
                    && n@ == v@)
                &&& trim(v@).len() > 0 && !valid_subscriber_name(v@) ==> (r matches Err(e) && e@
                    == v@ + " is not a valid subscriber name"@)
                &&& trim(v@).len() > 0 && v@.len() <= 256 && !has_forbidden_char(v@) ==> (r matches Ok(
                    Some(n),
                ) && n@ == v@)
                &&& trim(v@).len() > 0 && v@.len() > 256 && (forall|i: int|
                    0 <= i < v@.len() ==> (#[trigger] v@[i]) <= '\u{7f}' && v@[i] != '\r') ==> (r matches Err(e)
                    && e@ == v@ + " is not a valid subscriber name"@)
            },
    {
        match s {
            None => Ok(None),
            Some(value) => {
                let t = trim_str(value.as_str());
                if t.as_str().is_empty() {
                    return Ok(None);
                }
                let too_long = count_graphemes(value.as_str()) > 256;
                let v = chars_of(value.as_str());
                let forbidden = find_forbidden(v.as_slice());
                if too_long || forbidden {
                    Err(concat_str(value.as_str(), " is not a valid subscriber name"))
                } else {
                    Ok(Some(SubscriberName(value)))
                }
            },
        }
    }

    pub fn as_str(&self) -> (r: &str)
        ensures
            r@ == self@,
    {
        self.0.as_str()
    }
}

} // verus!
