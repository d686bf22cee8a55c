//! The address of the upstream tree for a user.

use crate::text::str_eq;
use vstd::prelude::*;
use vstd::string::StringExecFns;

verus! {

/// Whether the header value asks for leaves: it is exactly `true`.
pub open spec fn wants_leafs(header: Option<Seq<char>>) -> bool {
    header == Some("true"@)
}

/// The address of the tree of `user_id` below `agent_api_url`, with the
/// query that asks for leaves where the header value is `true`.
pub open spec fn tree_url_of(agent_api_url: Seq<char>, user_id: Seq<char>, header: Option<Seq<char>>) -> Seq<
    char,
> {
    let base = agent_api_url + "/api/agent/tree/"@ + user_id;
    if wants_leafs(header) {
        base + "?with_leafs=true"@
    } else {
        base
    }
}

/// Executable [`tree_url_of`]; `with_leafs` is the value of the header
/// `x-with-leafs`, if the request has one.
pub fn tree_url(agent_api_url: &str, user_id: &str, with_leafs: Option<&str>) -> (r: String)
    ensures
        r@ == tree_url_of(
            agent_api_url@,
            user_id@,
            match with_leafs {
                Some(h) => Some(h@),
                None => None,
            },
        ),
{
    let wanted = match with_leafs {
        Some(h) => str_eq(h, "true"),
        None => false,
    };
    let mut url = agent_api_url.to_owned();
    url.append("/api/agent/tree/");
    url.append(user_id);
    if wanted {
        url.append("?with_leafs=true");
    }
    url
}

} // verus!
