//! The startup check: every required variable of the environment must be set
//! to a value that is not blank.
use vstd::prelude::*;
use crate::fatal::Fatal;

verus! {

/// Name for what `str::trim` returns: the text without leading and trailing
/// whitespace.
pub uninterp spec fn trim_of(s: Seq<char>) -> Seq<char>;

/// Relies on `str::trim`, whose result depends on the characters alone.
#[verifier::external_body]
fn trimmed(s: &str) -> (r: &str)
    ensures
        r@ == trim_of(s@),
{
    s.trim()
}

/// The variables that must be set before the service may start, in the order
/// in which they are checked.
pub open spec fn required_names() -> Seq<Seq<char>> {
    seq!["RUST_LOG"@, "RUST_BACKTRACE"@]
}

/// A value read for a required variable is usable when it is present and
/// holds something besides whitespace.
pub open spec fn is_usable(value: Option<Seq<char>>) -> bool {
    value matches Some(s) && trim_of(s).len() > 0
}

/// The names whose values are not usable, in the order of `names`.
pub open spec fn violations(names: Seq<Seq<char>>, values: Seq<Option<Seq<char>>>) -> Seq<Seq<char>>
    decreases names.len(),
{
    if names.len() == 0 {
        Seq::empty()
    } else {
        let rest = violations(names.drop_last(), values.drop_last());
        if is_usable(values[names.len() - 1]) {
            rest
        } else {
            rest.push(names.last())
        }
    }
}

/// The names of the variables that the service requires.
pub fn required_vars() -> (r: Vec<String>)
    ensures
        r.deep_view() == required_names(),
{
    let r = vec![String::from_str("RUST_LOG"), String::from_str("RUST_BACKTRACE")];
    assert(r.deep_view() =~= required_names());
    r
}

/// Whether a value read for a required variable is usable.
pub fn is_usable_value(value: &Option<String>) -> (r: bool)
    ensures
        r == is_usable(value.deep_view()),
{
    match value {
        Some(s) => !trimmed(s.as_str()).is_empty(),
        None => false,
    }
}

/// Every name whose value is absent or blank, all of them and in order:
/// the check does not stop at the first.
pub fn missing_or_empty(names: &Vec<String>, values: &Vec<Option<String>>) -> (r: Vec<String>)
    requires
        names.len() == values.len(),
    ensures
        r.deep_view() == violations(names.deep_view(), values.deep_view()),
{
    let ghost ns = names.deep_view();
    let ghost vs = values.deep_view();
    let mut r: Vec<String> = Vec::new();
    let mut i: usize = 0;
    while i < names.len()
        invariant
            i <= names.len(),
            names.len() == values.len(),
            ns == names.deep_view(),
            vs == values.deep_view(),
            r.deep_view() == violations(ns.take(i as int), vs.take(i as int)),
        decreases names.len() - i,
    {
        let ok = is_usable_value(&values[i]);
        proof {
            assert(ns.take(i as int + 1).drop_last() =~= ns.take(i as int));
            assert(vs.take(i as int + 1).drop_last() =~= vs.take(i as int));
            assert(vs.take(i as int + 1)[i as int] == vs[i as int]);
            assert(vs[i as int] == values[i as int].deep_view());
        }
        if !ok {
            r.push(names[i].clone());
            assert(r.deep_view() =~= violations(ns.take(i as int), vs.take(i as int)).push(ns[i as int]));
        }
        i = i + 1;
    }
    assert(ns.take(names.len() as int) =~= ns);
    assert(vs.take(names.len() as int) =~= vs);
    r
}

/// The decision of the startup check on the values read for `names`: go on
/// when every one is usable, else stop with the list of all that are not.
pub fn check_required(names: &Vec<String>, values: &Vec<Option<String>>) -> (r: Result<(), Fatal>)
    requires
        names.len() == values.len(),
    ensures
        r is Ok <==> violations(names.deep_view(), values.deep_view()).len() == 0,
        r matches Err(f) ==> (f matches Fatal::MissingVars(v) && v.deep_view() == violations(
            names.deep_view(),
            values.deep_view(),
        )),
{
    let missing = missing_or_empty(names, values);
    if missing.len() == 0 {
        Ok(())
    } else {
        Err(Fatal::MissingVars(missing))
    }
}

/// The line logged for one required variable that is absent or blank.
pub fn violation_message(name: &str) -> (r: String)
    ensures
        r@ == "Missing or empty required environment variable: "@ + name@,
{
    let mut out = String::from_str("Missing or empty required environment variable: ");
    out.append(name);
    out
}


/// The startup check lets the service start exactly when every required value
/// is usable; when it refuses, it names every variable whose value is absent
/// or blank, not only the first, and names no other.
pub proof fn lemma_violations_exact(names: Seq<Seq<char>>, values: Seq<Option<Seq<char>>>)
    requires
        names.len() == values.len(),
    ensures
        violations(names, values).len() == 0 <==> forall|i: int|
            0 <= i < names.len() ==> #[trigger] is_usable(values[i]),
        forall|i: int|
            0 <= i < names.len() && !#[trigger] is_usable(values[i]) ==> violations(
                names,
                values,
            ).contains(names[i]),
        forall|x: Seq<char>|
            #[trigger] violations(names, values).contains(x) ==> exists|i: int|
                0 <= i < names.len() && names[i] == x && !is_usable(values[i]),
    decreases names.len(),
{
    if names.len() > 0 {
        let n = names.len() - 1;
        let ns = names.drop_last();
        let vs = values.drop_last();
        lemma_violations_exact(ns, vs);
        let rest = violations(ns, vs);
        assert forall|i: int| 0 <= i < n implies #[trigger] names[i] == ns[i] && values[i] == vs[i] by {}
        if is_usable(values[n]) {
            assert(violations(names, values) == rest);
            assert forall|i: int| 0 <= i < names.len() && !#[trigger] is_usable(values[i]) implies rest.contains(names[i]) by {
                assert(names[i] == ns[i] && values[i] == vs[i]);
            }
            assert forall|x: Seq<char>| #[trigger] rest.contains(x) implies exists|i: int|
                0 <= i < names.len() && names[i] == x && !is_usable(values[i]) by {
                let j = choose|j: int| 0 <= j < ns.len() && ns[j] == x && !is_usable(vs[j]);
                assert(names[j] == x && !is_usable(values[j]));
            }
            if rest.len() == 0 {
                assert forall|i: int| 0 <= i < names.len() implies #[trigger] is_usable(values[i]) by {
                    if i < n {
                        assert(values[i] == vs[i]);
                    }
                }
            }
        } else {
            let all = rest.push(names[n]);
            assert(violations(names, values) == all);
            assert(all[all.len() - 1] == names[n]);
            assert forall|i: int| 0 <= i < names.len() && !#[trigger] is_usable(values[i]) implies all.contains(names[i]) by {
                if i < n {
                    assert(names[i] == ns[i] && values[i] == vs[i]);
                    let j = choose|j: int| 0 <= j < rest.len() && rest[j] == ns[i];
                    assert(all[j] == names[i]);
                } else {
                    assert(all[all.len() - 1] == names[i]);
                }
            }
            assert forall|x: Seq<char>| #[trigger] all.contains(x) implies exists|i: int|
                0 <= i < names.len() && names[i] == x && !is_usable(values[i]) by {
                let j = choose|j: int| 0 <= j < all.len() && all[j] == x;
                if j < rest.len() {
                    assert(rest[j] == x);
                    assert(rest.contains(x));
                    let k = choose|k: int| 0 <= k < ns.len() && ns[k] == x && !is_usable(vs[k]);
                    assert(names[k] == x && !is_usable(values[k]));
                } else {
                    assert(names[n] == x && !is_usable(values[n]));
                }
            }
        }
    }
}

} // verus!
