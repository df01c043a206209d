//! Reading an account's state from the answer to a `view_state` query.
use crate::plan::StateEntry;
use vstd::prelude::*;

verus! {

/// The outcome of a `view_state` query.
pub enum ViewStateReply {
    /// The account's storage, as raw keys and values. Where the listing is not complete,
    /// `last_key` tells where it breaks off.
    ViewState { values: Vec<(Vec<u8>, Vec<u8>)>, last_key: Option<Vec<u8>> },
    /// An answer to some other query.
    OtherKind,
    /// The query failed. `rendered` is the error's message, `inner` the details of the error
    /// that the node itself reported, empty where it reported none.
    Failed { rendered: String, inner: String },
}

/// What tells a query that was refused for the size of the state.
pub const TOO_LARGE: &'static str = "too large";

/// The message for a state that the RPC refuses to return, which points at the remedy.
pub const STATE_TOO_LARGE: &'static str =
    "Account state is too large for this RPC's view_state cap.\nConfigure a permissive RPC (e.g. https://rpc.intear.tech) in ~/.near/config.toml and retry.";

/// Whether `needle` occurs in `haystack`.
pub open spec fn occurs_in(needle: Seq<char>, haystack: Seq<char>) -> bool {
    exists|i: int|
        0 <= i <= haystack.len() - needle.len() && #[trigger] haystack.subrange(
            i,
            i + needle.len(),
        ) == needle
}

/// Calls `str::contains` with a string to look for. Trusted: it tells whether the string
/// occurs.
#[verifier::external_body]
fn contains(haystack: &str, needle: &str) -> (found: bool)
    ensures
        found == occurs_in(needle@, haystack@),
{
    haystack.contains(needle)
}

/// The message for a failed `view_state` query.
pub open spec fn view_state_failure(rendered: Seq<char>, inner: Seq<char>) -> Seq<char> {
    if occurs_in(TOO_LARGE@, rendered) || occurs_in(TOO_LARGE@, inner) {
        STATE_TOO_LARGE@
    } else {
        "Failed to fetch ViewState: "@ + rendered
    }
}

/// The message for a failed `view_state` query. Most public RPCs cap the size of the state
/// that they return; where that is the reason, the message says what to do about it.
pub fn map_view_state_error(rendered: &str, inner: &str) -> (message: String)
    ensures
        message@ == view_state_failure(rendered@, inner@),
        message@ == if occurs_in("too large"@, rendered@) || occurs_in("too large"@, inner@) {
            STATE_TOO_LARGE@
        } else {
            "Failed to fetch ViewState: "@ + rendered@
        },
{
    if contains(rendered, TOO_LARGE) || contains(inner, TOO_LARGE) {
        return STATE_TOO_LARGE.to_owned();
    }
    let mut message: String = "Failed to fetch ViewState: ".to_owned();
    message.append(rendered);
    message
}

/// Every storage entry in `reply`, the outcome of querying the state of `account_id`: the key
/// and the length of the value. An incomplete listing is refused: there is no partial wipe.
pub fn read_state(reply: ViewStateReply, account_id: &str) -> (r: Result<Vec<StateEntry>, String>)
    ensures
        match (reply, r) {
            (ViewStateReply::ViewState { values, last_key }, Ok(entries)) => {
                &&& last_key is None
                &&& entries@.len() == values@.len()
                &&& forall|i: int|
                    0 <= i < values@.len() ==> (#[trigger] entries@[i]).key@ == values@[i].0@
                        && entries@[i].value_bytes == values@[i].1@.len()
            },
            (ViewStateReply::ViewState { last_key, .. }, Err(message)) => {
                &&& last_key is Some
                &&& message@ == "RPC returned an incomplete state listing for <"@ + account_id@
                    + ">"@
            },
            (ViewStateReply::OtherKind, Err(message)) => message@
                == "Unexpected RPC response kind for ViewState on <"@ + account_id@ + ">"@,
            (ViewStateReply::Failed { rendered, inner }, Err(message)) => message@
                == view_state_failure(rendered@, inner@),
            _ => false,
        },
{
    match reply {
        ViewStateReply::ViewState { values, last_key } => {
            if last_key.is_some() {
                let mut message: String = "RPC returned an incomplete state listing for <".to_owned();
                message.append(account_id);
                message.append(">");
                return Err(message);
            }
            let ghost all = values@;
            let mut entries: Vec<StateEntry> = Vec::new();
            for kv in it: values.into_iter()
                invariant
                    it.seq() == all,
                    entries@.len() == it.index(),
                    forall|i: int|
                        0 <= i < it.index() ==> (#[trigger] entries@[i]).key@ == all[i].0@
                            && entries@[i].value_bytes == all[i].1@.len(),
            {
                let (key, value) = kv;
                entries.push(StateEntry { key, value_bytes: value.len() });
            }
            Ok(entries)
        },
        ViewStateReply::OtherKind => {
            let mut message: String =
                "Unexpected RPC response kind for ViewState on <".to_owned();
            message.append(account_id);
            message.append(">");
            Err(message)
        },
        ViewStateReply::Failed { rendered, inner } => Err(
            map_view_state_error(rendered.as_str(), inner.as_str()),
        ),
    }
}

} // verus!
