//! Developer-facing renderings, in the shape that `{:?}` gives to lists and
//! string maps: `["a", "b"]` and `{"a": "1", "b": "2"}`.
use vstd::prelude::*;

verus! {

/// Name for what `<str as Debug>::fmt` writes for a text: the text quoted,
/// with its special characters escaped.
pub uninterp spec fn debug_of(s: Seq<char>) -> Seq<char>;

/// Relies on `<str as Debug>::fmt`; what it writes depends on the characters alone.
#[verifier::external_body]
pub(crate) fn debug_quoted(s: &str) -> (r: String)
    ensures
        r@ == debug_of(s@),
{
    format!("{:?}", s)
}

/// The parts one after another, with `", "` between two neighbours.
pub open spec fn joined(parts: Seq<Seq<char>>) -> Seq<char>
    decreases parts.len(),
{
    if parts.len() == 0 {
        Seq::empty()
    } else if parts.len() == 1 {
        parts[0]
    } else {
        joined(parts.drop_last()) + ", "@ + parts.last()
    }
}

/// Rendering of a list of texts: `[` , each text quoted, `]`.
pub open spec fn list_debug(items: Seq<Seq<char>>) -> Seq<char> {
    "["@ + joined(items.map_values(|s: Seq<char>| debug_of(s))) + "]"@
}

/// Rendering of one key and its value: `"key": "value"`.
pub open spec fn entry_debug(e: (Seq<char>, Seq<char>)) -> Seq<char> {
    debug_of(e.0) + ": "@ + debug_of(e.1)
}

/// Rendering of a string map whose entries are walked in the given order.
pub open spec fn map_debug(entries: Seq<(Seq<char>, Seq<char>)>) -> Seq<char> {
    "{"@ + joined(entries.map_values(|e: (Seq<char>, Seq<char>)| entry_debug(e))) + "}"@
}

pub(crate) proof fn lemma_joined_push(parts: Seq<Seq<char>>, p: Seq<char>)
    requires
        parts.len() > 0,
    ensures
        joined(parts.push(p)) == joined(parts) + ", "@ + p,
{
    assert(parts.push(p).drop_last() =~= parts);
}

/// Appends to `out` the items, quoted and separated by `", "`.
fn append_joined_quoted(out: &mut String, items: &Vec<String>)
    ensures
        final(out)@ == old(out)@ + joined(items.deep_view().map_values(|s: Seq<char>| debug_of(s))),
{
    let ghost start = out@;
    let ghost parts = items.deep_view().map_values(|s: Seq<char>| debug_of(s));
    let mut i: usize = 0;
    while i < items.len()
        invariant
            i <= items.len(),
            parts.len() == items.len(),
            forall|k: int| 0 <= k < items.len() ==> #[trigger] parts[k] == debug_of(items[k]@),
            out@ == start + joined(parts.take(i as int)),
        decreases items.len() - i,
    {
        let q = debug_quoted(items[i].as_str());
        proof {
            assert(parts.take(i as int + 1) =~= parts.take(i as int).push(parts[i as int]));
        }
        if i > 0 {
            out.append(", ");
            out.append(q.as_str());
            proof {
                lemma_joined_push(parts.take(i as int), parts[i as int]);
            }
        } else {
            out.append(q.as_str());
            assert(parts.take(1) =~= seq![parts[0]]);
        }
        i = i + 1;
    }
    assert(parts.take(items.len() as int) =~= parts);
}

/// Renders a list of texts as `{:?}` renders a `Vec` of them.
pub fn render_list(items: &Vec<String>) -> (r: String)
    ensures
        r@ == list_debug(items.deep_view()),
{
    let mut out = String::from_str("[");
    append_joined_quoted(&mut out, items);
    out.append("]");
    out
}

} // verus!
