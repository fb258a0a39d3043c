//! Canonical query strings for the list endpoints.
//!
//! A filter set is rendered as `?name=v1&name=v2&...` in the caller's
//! order; an empty filter set renders as the empty string, with no `?`.

use vstd::prelude::*;
use vstd::string::*;

verus! {

/// The `name=value` pairs of a query, joined with `&`, in order.
pub open spec fn query_pairs(name: Seq<char>, values: Seq<Seq<char>>) -> Seq<char>
    decreases values.len(),
{
    if values.len() == 0 {
        Seq::<char>::empty()
    } else if values.len() == 1 {
        name + seq!['='] + values[0]
    } else {
        query_pairs(name, values.drop_last()) + seq!['&'] + name + seq!['='] + values.last()
    }
}

/// The full query suffix: empty for an empty filter set, otherwise `?`
/// followed by the joined pairs.
pub open spec fn query_string(name: Seq<char>, values: Seq<Seq<char>>) -> Seq<char> {
    if values.len() == 0 {
        Seq::<char>::empty()
    } else {
        seq!['?'] + query_pairs(name, values)
    }
}

/// An empty filter set contributes nothing: the `?` is omitted entirely.
pub proof fn lemma_query_string_empty(name: Seq<char>, values: Seq<Seq<char>>)
    requires
        values.len() == 0,
    ensures
        query_string(name, values) == Seq::<char>::empty(),
{
}

/// Appending one more value extends the rendered query on the right, so
/// caller-supplied order is preserved and repeated values join with `&`.
pub proof fn lemma_query_pairs_push(name: Seq<char>, values: Seq<Seq<char>>, v: Seq<char>)
    requires
        values.len() > 0,
    ensures
        query_pairs(name, values.push(v)) == query_pairs(name, values) + seq!['&'] + name
            + seq!['='] + v,
{
    let pushed = values.push(v);
    assert(pushed.drop_last() =~= values);
    assert(pushed.last() == v);
}

/// Render the query suffix for one repeated parameter name over the given
/// values, in their order.
pub fn render_query(name: &str, values: &Vec<String>) -> (r: String)
    ensures
        r@ == query_string(name@, values.deep_view()),
{
    proof {
        reveal_strlit("?");
        reveal_strlit("&");
        reveal_strlit("=");
    }
    if values.len() == 0 {
        let r = String::new();
        proof {
            assert(values.deep_view().len() == 0);
            assert(r@ =~= query_string(name@, values.deep_view()));
        }
        return r;
    }
    let ghost dv = values.deep_view();
    let mut r = String::from_str("?");
    let mut i: usize = 0;
    while i < values.len()
        invariant
            values.deep_view() == dv,
            dv.len() == values.len(),
            0 < values.len(),
            i <= values.len(),
            i == 0 ==> r@ == "?"@,
            i > 0 ==> r@ == seq!['?'] + query_pairs(name@, dv.take(i as int)),
        decreases values.len() - i,
    {
        if i > 0 {
            r.append("&");
        }
        r.append(name);
        r.append("=");
        r.append(values[i].as_str());
        proof {
            reveal_strlit("?");
            reveal_strlit("&");
            reveal_strlit("=");
            assert(dv[i as int] == values@[i as int]@);
            assert(dv.take(i + 1).drop_last() =~= dv.take(i as int));
            assert(dv.take(i + 1).last() == dv[i as int]);
            assert(dv.take(i + 1).len() == i + 1);
            if i == 0 {
                assert(r@ =~= seq!['?'] + query_pairs(name@, dv.take(1)));
            } else {
                assert(r@ =~= seq!['?'] + query_pairs(name@, dv.take(i + 1)));
            }
        }
        i = i + 1;
    }
    proof {
        assert(dv.take(values.len() as int) =~= dv);
    }
    r
}

/// Render a base path followed by the query suffix for one repeated
/// parameter name.
pub fn render_path_with_query(base: &str, name: &str, values: &Vec<String>) -> (r: String)
    ensures
        r@ == base@ + query_string(name@, values.deep_view()),
{
    let mut r = String::from_str(base);
    let q = render_query(name, values);
    r.append(q.as_str());
    r
}

} // verus!
