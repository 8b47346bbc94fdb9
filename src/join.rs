//! Joining a list of optional text values into one line.
use vstd::prelude::*;
use vstd::string::StringExecFns;

verus! {

/// `parts` written one after the other with `separator` between each two.
pub open spec fn joined(parts: Seq<Seq<char>>, separator: Seq<char>) -> Seq<char>
    decreases parts.len(),
{
    if parts.len() == 0 {
        Seq::empty()
    } else if parts.len() == 1 {
        parts[0]
    } else {
        joined(parts.drop_last(), separator) + separator + parts.last()
    }
}

/// `filter_fn` answered `answer` when handed a string holding `value`.
pub open spec fn answered<F: Fn(String) -> bool>(filter_fn: F, value: Seq<char>, answer: bool) -> bool {
    exists|s: String| s@ == value && #[trigger] filter_fn.ensures((s,), answer)
}

/// `map_fn` turned a string holding `value` into one holding `out`.
pub open spec fn mapped<M: Fn(String) -> String>(map_fn: M, value: Seq<char>, out: Seq<char>) -> bool {
    exists|s: String, t: String| s@ == value && t@ == out && #[trigger] map_fn.ensures((s,), t)
}

/// `kept` holds, in order, the image under `map_fn` of each value that
/// `filter_fn` accepted, and nothing for the values it rejected.
pub open spec fn filtered_and_mapped<F: Fn(String) -> bool, M: Fn(String) -> String>(
    values: Seq<Seq<char>>,
    filter_fn: F,
    map_fn: M,
    kept: Seq<Seq<char>>,
) -> bool
    decreases values.len(),
{
    if values.len() == 0 {
        kept.len() == 0
    } else {
        let value = values.last();
        ||| answered(filter_fn, value, false) && filtered_and_mapped(
            values.drop_last(),
            filter_fn,
            map_fn,
            kept,
        )
        ||| kept.len() > 0 && answered(filter_fn, value, true) && mapped(map_fn, value, kept.last())
            && filtered_and_mapped(values.drop_last(), filter_fn, map_fn, kept.drop_last())
    }
}

/// `kept` holds, in order, each value that `filter_fn` accepted.
pub open spec fn filtered<F: Fn(String) -> bool>(
    values: Seq<Seq<char>>,
    filter_fn: F,
    kept: Seq<Seq<char>>,
) -> bool
    decreases values.len(),
{
    if values.len() == 0 {
        kept.len() == 0
    } else {
        let value = values.last();
        ||| answered(filter_fn, value, false) && filtered(values.drop_last(), filter_fn, kept)
        ||| kept.len() > 0 && kept.last() == value && answered(filter_fn, value, true) && filtered(
            values.drop_last(),
            filter_fn,
            kept.drop_last(),
        )
    }
}

pub open spec fn views_of(values: Seq<&str>) -> Seq<Seq<char>> {
    values.map_values(|v: &str| v@)
}

/// Whether `value` holds any text.
pub fn not_empty(value: String) -> (r: bool)
    ensures
        r == (value@.len() > 0),
{
    value.as_str().unicode_len() != 0
}

/// `None` for the empty string, else the string itself.
pub fn optional_empty(value: &str) -> (r: Option<&str>)
    ensures
        r == (if value@.len() == 0 {
            None
        } else {
            Some(value)
        }),
{
    if value.unicode_len() == 0 {
        return None;
    }
    Some(value)
}

/// Keeps the values that `filter_fn` accepts, maps each kept value with
/// `map_fn`, and joins the results with `separator`.
pub fn filter_and_map<Filter: Fn(String) -> bool, Mapper: Fn(String) -> String>(
    values: Vec<&str>,
    separator: &str,
    filter_fn: Filter,
    map_fn: Mapper,
) -> (r: String)
    requires
        forall|s: String| #[trigger] filter_fn.requires((s,)),
        forall|s: String| #[trigger] map_fn.requires((s,)),
    ensures
        exists|kept: Seq<Seq<char>>|
            filtered_and_mapped(views_of(values@), filter_fn, map_fn, kept) && r@ == joined(
                kept,
                separator@,
            ),
{
    let ghost all = views_of(values@);
    let mut result = String::new();
    let ghost mut kept: Seq<Seq<char>> = Seq::empty();
    let mut any_kept = false;
    let mut i: usize = 0;
    while i < values.len()
        invariant
            all == views_of(values@),
            0 <= i <= values@.len(),
            forall|s: String| #[trigger] filter_fn.requires((s,)),
            forall|s: String| #[trigger] map_fn.requires((s,)),
            filtered_and_mapped(all.subrange(0, i as int), filter_fn, map_fn, kept),
            result@ == joined(kept, separator@),
            any_kept == (kept.len() > 0),
        decreases values@.len() - i,
    {
        let value = values[i];
        let candidate = String::from_str(value);
        let keep = filter_fn(candidate);
        let ghost prior = all.subrange(0, i as int);
        assert(all.subrange(0, i + 1).drop_last() == prior);
        assert(all.subrange(0, i + 1).last() == value@);
        if keep {
            let input = String::from_str(value);
            let out = map_fn(input);
            if any_kept {
                result.append(separator);
            }
            result.append(out.as_str());
            any_kept = true;
            proof {
                let old_kept = kept;
                kept = kept.push(out@);
                assert(kept.drop_last() == old_kept);
                assert(answered(filter_fn, value@, true));
                assert(mapped(map_fn, value@, out@));
                if old_kept.len() == 0 {
                    assert(result@ == out@);
                }
            }
        } else {
            assert(answered(filter_fn, value@, false));
        }
        i = i + 1;
    }
    assert(all.subrange(0, values@.len() as int) == all);
    result
}

proof fn lemma_identity_map<F: Fn(String) -> bool, M: Fn(String) -> String>(
    values: Seq<Seq<char>>,
    filter_fn: F,
    map_fn: M,
    kept: Seq<Seq<char>>,
)
    requires
        forall|s: String, t: String| #[trigger] map_fn.ensures((s,), t) ==> t@ == s@,
        filtered_and_mapped(values, filter_fn, map_fn, kept),
    ensures
        filtered(values, filter_fn, kept),
    decreases values.len(),
{
    if values.len() > 0 {
        let value = values.last();
        if answered(filter_fn, value, false) && filtered_and_mapped(
            values.drop_last(),
            filter_fn,
            map_fn,
            kept,
        ) {
            lemma_identity_map(values.drop_last(), filter_fn, map_fn, kept);
        } else {
            lemma_identity_map(values.drop_last(), filter_fn, map_fn, kept.drop_last());
        }
    }
}

/// Keeps the values that `filter_fn` accepts and joins them with
/// `separator`.
pub fn filter<F: Fn(String) -> bool>(values: Vec<&str>, separator: &str, filter_fn: F) -> (r:
    String)
    requires
        forall|s: String| #[trigger] filter_fn.requires((s,)),
    ensures
        exists|kept: Seq<Seq<char>>|
            filtered(views_of(values@), filter_fn, kept) && r@ == joined(kept, separator@),
{
    let identity = |s: String| -> (t: String)
        ensures
            t@ == s@,
        { s };
    let r = filter_and_map(values, separator, filter_fn, identity);
    proof {
        let kept = choose|kept: Seq<Seq<char>>|
            filtered_and_mapped(views_of(values@), filter_fn, identity, kept) && r@ == joined(
                kept,
                separator@,
            );
        lemma_identity_map(views_of(values@), filter_fn, identity, kept);
    }
    r
}

} // verus!
