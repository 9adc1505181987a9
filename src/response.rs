//! The two handlers of the route group, as the bodies they answer with.
use vstd::prelude::*;
use crate::payload::{entries_map, keys_distinct, lemma_entries_map, Payload};
use crate::render::map_debug;

verus! {

/// Port on which the service listens, on all interfaces.
pub const LISTEN_PORT: u16 = 3000;

/// The body that a GET of the route group answers with.
pub open spec fn greeting() -> Seq<char> {
    "Hello, World!"@
}

/// The text that a POST of the form fields `entries` answers with, before it
/// is encoded as a JSON string.
pub open spec fn post_message(entries: Seq<(Seq<char>, Seq<char>)>) -> Seq<char> {
    "Received POST request with payload: "@ + map_debug(entries)
}

/// Body of the answer to a GET of the route group: always the same text,
/// whatever the query string or headers.
pub fn root() -> (r: &'static str)
    ensures
        r@ == greeting(),
{
    "Hello, World!"
}

/// Text of the answer to a POST of the route group: the decoded form fields,
/// rendered in the order in which the decoder walked them.
pub fn root_post(payload: &Payload) -> (r: String)
    ensures
        r@ == post_message(payload@),
{
    let mut out = String::from_str("Received POST request with payload: ");
    let rendered = payload.render();
    out.append(rendered.as_str());
    out
}

/// Identical POSTs get identical answers whenever their fields decode to the
/// same mapping of at most one key: the answer holds no state of earlier
/// requests. (With two keys or more the decoder may walk them in another order
/// from one decoding to the next, and the rendering follows that order.)
pub proof fn lemma_post_answer_determined(
    a: Seq<(Seq<char>, Seq<char>)>,
    b: Seq<(Seq<char>, Seq<char>)>,
)
    requires
        keys_distinct(a),
        keys_distinct(b),
        entries_map(a) == entries_map(b),
        entries_map(a).len() <= 1,
    ensures
        post_message(a) == post_message(b),
{
    lemma_entries_map(a);
    lemma_entries_map(b);
    if a.len() == 1 {
        assert(entries_map(a).contains_key(b[0].0));
        let i = choose|i: int| 0 <= i < a.len() && a[i].0 == b[0].0;
        assert(i == 0);
        assert(b.len() == 1);
        assert(entries_map(a)[a[0].0] == a[0].1);
        assert(entries_map(b)[b[0].0] == b[0].1);
        assert(a[0] == b[0]);
        assert(a =~= b);
    } else {
        assert(b.len() == 0);
        assert(a =~= b);
    }
}

} // verus!
