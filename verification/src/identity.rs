//! Turning free user text into a validated actor identifier.
//!
//! The remote protocol accepts two identifier shapes — a dotted handle or a
//! durable DID — and its client library decides acceptance by the text
//! alone.  Resolution tries the raw text first and, when it is refused,
//! retries exactly once with the default domain suffix appended, so a bare
//! local name like `alice` can stand for `alice.bsky.social`.  A second
//! refusal surfaces the original text back to the caller.

use vstd::prelude::*;
use vstd::string::StringExecFns;

verus! {

/// Whether the protocol library accepts `s` as an actor identifier (a
/// handle or a durable DID).  Acceptance is a pure function of the text.
pub uninterp spec fn at_identifier_accepted(s: Seq<char>) -> bool;

/// Relies on `<atrium_api::types::string::AtIdentifier as FromStr>::from_str`:
/// the text is held against the DID grammar and then the handle grammar, and
/// accepted or refused on the text alone, without panicking or side effects.
#[verifier::external_body]
fn identifier_accepted(s: &String) -> (ok: bool)
    ensures
        ok == at_identifier_accepted(s@),
{
    s.parse::<atrium_api::types::string::AtIdentifier>().is_ok()
}

/// The raw text was refused both as given and with the default domain
/// suffix appended; it is handed back for display.
#[derive(Debug)]
pub struct InvalidIdentifier {
    /// The text exactly as the user gave it.
    pub raw: String,
}

/// A validated actor identifier: text that the identifier grammar accepted.
/// Immutable once constructed.
#[derive(Debug)]
pub struct ActorId {
    text: String,
}

impl View for ActorId {
    type V = Seq<char>;

    closed spec fn view(&self) -> Seq<char> {
        self.text@
    }
}

impl ActorId {
    /// The validity established at construction.
    pub closed spec fn wf(&self) -> bool {
        at_identifier_accepted(self.text@)
    }

    /// The identifier as text, for issuing requests.
    pub fn text(&self) -> (t: &String)
        ensures
            t@ == self@,
    {
        &self.text
    }

    /// An owned copy of the identifier's text.
    pub fn text_owned(&self) -> (t: String)
        ensures
            t@ == self@,
    {
        self.text.clone()
    }
}

/// Resolves free text to a validated identifier: as given, or failing that
/// with the default domain suffix appended, or failing that not at all.
/// This is a pure validation step with no other effect.
pub fn resolve(raw: &String) -> (r: Result<ActorId, InvalidIdentifier>)
    ensures
        at_identifier_accepted(raw@) ==> (r matches Ok(a) && a@ == raw@),
        !at_identifier_accepted(raw@) && at_identifier_accepted(raw@ + ".bsky.social"@)
            ==> (r matches Ok(a) && a@ == raw@ + ".bsky.social"@),
        r is Err <==> !at_identifier_accepted(raw@) && !at_identifier_accepted(
            raw@ + ".bsky.social"@,
        ),
        r matches Err(e) ==> e.raw@ == raw@,
        r matches Ok(a) ==> a.wf(),
{
    if identifier_accepted(raw) {
        Ok(ActorId { text: raw.clone() })
    } else {
        let fallback = raw.clone().concat(".bsky.social");
        if identifier_accepted(&fallback) {
            Ok(ActorId { text: fallback })
        } else {
            Err(InvalidIdentifier { raw: raw.clone() })
        }
    }
}

/// The public web profile address for an account, for opening in a browser.
pub fn profile_url(handle: &String) -> (url: String)
    ensures
        url@ == "https://bsky.app/profile/"@ + handle@,
{
    let base = "https://bsky.app/profile/".to_owned();
    base.concat(handle.as_str())
}

} // verus!
