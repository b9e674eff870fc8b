//! Query strings: splitting at a separator, and the layout of a WebFinger query.
use vstd::prelude::*;

use crate::percent::{encode_component, lemma_encoding_keeps_delimiters};
use crate::request::{query_of, rel_params};

verus! {

/// The pieces of `s` between the occurrences of `sep`, in order; there is always
/// one more piece than there are separators.
pub open spec fn split_seq<A>(s: Seq<A>, sep: A) -> Seq<Seq<A>>
    decreases s.len(),
{
    if s.len() == 0 {
        seq![Seq::empty()]
    } else {
        let prev = split_seq(s.drop_last(), sep);
        if s.last() == sep {
            prev.push(Seq::empty())
        } else {
            prev.update(prev.len() - 1, prev.last().push(s.last()))
        }
    }
}

/// There is at least one piece.
pub proof fn lemma_split_nonempty<A>(s: Seq<A>, sep: A)
    ensures
        split_seq(s, sep).len() >= 1,
    decreases s.len(),
{
    if s.len() > 0 {
        lemma_split_nonempty(s.drop_last(), sep);
    }
}

/// Text without the separator extends the last piece.
pub proof fn lemma_split_extend<A>(x: Seq<A>, y: Seq<A>, sep: A)
    requires
        !y.contains(sep),
    ensures
        split_seq(x + y, sep) == split_seq(x, sep).update(
            split_seq(x, sep).len() - 1,
            split_seq(x, sep).last() + y,
        ),
    decreases y.len(),
{
    lemma_split_nonempty(x, sep);
    let px = split_seq(x, sep);
    if y.len() == 0 {
        assert(x + y =~= x);
        assert(px.last() + y =~= px.last());
        assert(px.update(px.len() - 1, px.last()) =~= px);
    } else {
        let y0 = y.drop_last();
        assert(!y0.contains(sep)) by {
            if y0.contains(sep) {
                let k = choose|k: int| 0 <= k < y0.len() && y0[k] == sep;
                assert(0 <= k < y.len() && y[k] == sep);
            }
        }
        assert(y.last() != sep) by {
            assert(y[y.len() - 1] == y.last());
        }
        lemma_split_extend(x, y0, sep);
        assert((x + y).drop_last() =~= x + y0);
        assert((x + y).last() == y.last());
        assert(px.last() + y0 + seq![y.last()] =~= px.last() + y);
        let prev = split_seq(x + y0, sep);
        assert(prev == px.update(px.len() - 1, px.last() + y0));
        assert(prev.len() == px.len());
        assert(prev.last() == px.last() + y0);
        assert(split_seq(x + y, sep) == prev.update(prev.len() - 1, prev.last().push(y.last())));
        assert((px.last() + y0).push(y.last()) =~= px.last() + y);
        let lhs = split_seq(x + y, sep);
        let rhs = px.update(px.len() - 1, px.last() + y);
        assert(lhs.len() == rhs.len());
        assert forall|i: int| 0 <= i < lhs.len() implies lhs[i] == rhs[i] by {
            if i == px.len() - 1 {
                assert(lhs[i] == (px.last() + y0).push(y.last()));
            } else {
                assert(lhs[i] == prev[i]);
                assert(prev[i] == px[i]);
            }
        }
        assert(lhs =~= rhs);
    }
}

/// A separator followed by text without it adds that text as a new piece.
pub proof fn lemma_split_then<A>(x: Seq<A>, y: Seq<A>, sep: A)
    requires
        !y.contains(sep),
    ensures
        split_seq(x + seq![sep] + y, sep) == split_seq(x, sep).push(y),
{
    let xs = x + seq![sep];
    assert(xs.drop_last() =~= x);
    assert(xs.last() == sep);
    lemma_split_extend(xs, y, sep);
    let p = split_seq(xs, sep);
    assert(p == split_seq(x, sep).push(Seq::empty()));
    assert(Seq::<A>::empty() + y =~= y);
    assert(p.update(p.len() - 1, p.last() + y) =~= split_seq(x, sep).push(y));
}

/// Text without the separator is a single piece.
pub proof fn lemma_split_whole<A>(y: Seq<A>, sep: A)
    requires
        !y.contains(sep),
    ensures
        split_seq(y, sep) == seq![y],
{
    lemma_split_extend(Seq::empty(), y, sep);
    assert(Seq::<A>::empty() + y =~= y);
    assert(split_seq(Seq::<A>::empty(), sep) == seq![Seq::<A>::empty()]);
    assert(seq![Seq::<A>::empty()].update(0, Seq::<A>::empty() + y) =~= seq![y]);
}

/// The `rel=` parameters of a query, one for each relation type, in order.
pub open spec fn rel_pieces(rels: Seq<Seq<char>>) -> Seq<Seq<char>> {
    rels.map_values(|r: Seq<char>| "rel="@ + encode_component(r))
}

/// A request's query string holds one `rel=` parameter for each relation type,
/// in the order of the relation types, after the `resource=` parameter: split at
/// `&`, it is `resource=<resource>` followed by `rel=<rel>` for each relation
/// type. No value adds a `&` or a `=` of its own, so with N relation types there
/// are exactly N `rel=` parameters.
pub proof fn lemma_query_lists_rels_in_order(resource: Seq<char>, rels: Seq<Seq<char>>)
    ensures
        split_seq(query_of(resource, rels), '&') == seq!["resource="@ + encode_component(resource)]
            + rel_pieces(rels),
    decreases rels.len(),
{
    reveal_strlit("resource=");
    reveal_strlit("rel=");
    reveal_strlit("&rel=");
    lemma_encoding_keeps_delimiters(resource, Seq::empty());
    let head = "resource="@ + encode_component(resource);
    if rels.len() == 0 {
        assert(query_of(resource, rels) =~= head);
        assert(!head.contains('&')) by {
            if head.contains('&') {
                let k = choose|k: int| 0 <= k < head.len() && head[k] == '&';
                if k >= 9 {
                    assert(encode_component(resource)[k - 9] == '&');
                }
            }
        }
        lemma_split_whole(head, '&');
        assert(rel_pieces(rels) =~= Seq::<Seq<char>>::empty());
        assert(seq![head] + rel_pieces(rels) =~= seq![head]);
    } else {
        let prev = rels.drop_last();
        let r = rels.last();
        lemma_query_lists_rels_in_order(resource, prev);
        let piece = "rel="@ + encode_component(r);
        lemma_encoding_keeps_delimiters(r, Seq::empty());
        assert(!piece.contains('&')) by {
            if piece.contains('&') {
                let k = choose|k: int| 0 <= k < piece.len() && piece[k] == '&';
                if k >= 4 {
                    assert(encode_component(r)[k - 4] == '&');
                }
            }
        }
        assert("&rel="@ =~= seq!['&'] + "rel="@);
        assert(query_of(resource, rels) =~= query_of(resource, prev) + seq!['&'] + piece);
        lemma_split_then(query_of(resource, prev), piece, '&');
        assert(rel_pieces(rels) =~= rel_pieces(prev).push(piece));
        assert(seq![head] + rel_pieces(rels) =~= (seq![head] + rel_pieces(prev)).push(piece));
    }
}

} // verus!
