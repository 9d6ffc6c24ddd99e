//! The ordering used for catalog listings: entries sort by an optional
//! timestamp text, most recent first, entries with no timestamp last —
//! that is, descending under a total order in which an absent key is the
//! minimum and present keys compare lexicographically.

use vstd::prelude::*;
use vstd::multiset::Multiset;
use vstd::string::StrSliceExecFns;

verus! {

/// Lexicographic order on character sequences, by code point.
pub open spec fn str_le(a: Seq<char>, b: Seq<char>) -> bool
    decreases a.len(),
{
    if a.len() == 0 {
        true
    } else if b.len() == 0 {
        false
    } else if (a[0] as u32) < (b[0] as u32) {
        true
    } else if (a[0] as u32) > (b[0] as u32) {
        false
    } else {
        str_le(a.drop_first(), b.drop_first())
    }
}

pub proof fn lemma_str_le_total(a: Seq<char>, b: Seq<char>)
    ensures
        str_le(a, b) || str_le(b, a),
    decreases a.len(),
{
    if a.len() > 0 && b.len() > 0 && (a[0] as u32) == (b[0] as u32) {
        lemma_str_le_total(a.drop_first(), b.drop_first());
    }
}

pub proof fn lemma_str_le_trans(a: Seq<char>, b: Seq<char>, c: Seq<char>)
    requires
        str_le(a, b),
        str_le(b, c),
    ensures
        str_le(a, c),
    decreases a.len(),
{
    if a.len() > 0 && b.len() > 0 && c.len() > 0 {
        if (a[0] as u32) == (b[0] as u32) && (b[0] as u32) == (c[0] as u32) {
            lemma_str_le_trans(a.drop_first(), b.drop_first(), c.drop_first());
        }
    }
}

/// The catalog key order: an absent key sorts below every present key;
/// present keys compare lexicographically.
pub open spec fn opt_le(a: Option<Seq<char>>, b: Option<Seq<char>>) -> bool {
    match (a, b) {
        (Option::None, _) => true,
        (Option::Some(_), Option::None) => false,
        (Option::Some(x), Option::Some(y)) => str_le(x, y),
    }
}

pub proof fn lemma_opt_le_total(a: Option<Seq<char>>, b: Option<Seq<char>>)
    ensures
        opt_le(a, b) || opt_le(b, a),
{
    if a is Some && b is Some {
        lemma_str_le_total(a->0, b->0);
    }
}

pub proof fn lemma_opt_le_trans(a: Option<Seq<char>>, b: Option<Seq<char>>, c: Option<Seq<char>>)
    requires
        opt_le(a, b),
        opt_le(b, c),
    ensures
        opt_le(a, c),
{
    if a is Some && b is Some && c is Some {
        lemma_str_le_trans(a->0, b->0, c->0);
    }
}

/// Compares two texts lexicographically.
pub fn str_le_exec(a: &str, b: &str) -> (r: bool)
    ensures
        r == str_le(a@, b@),
{
    let an = a.unicode_len();
    let bn = b.unicode_len();
    proof {
        assert(a@.skip(0) =~= a@);
        assert(b@.skip(0) =~= b@);
    }
    let mut i: usize = 0;
    while i < an && i < bn
        invariant
            0 <= i <= an,
            0 <= i <= bn,
            an == a@.len(),
            bn == b@.len(),
            str_le(a@, b@) == str_le(a@.skip(i as int), b@.skip(i as int)),
        decreases an - i,
    {
        let ca = a.get_char(i);
        let cb = b.get_char(i);
        proof {
            assert(a@.skip(i as int)[0] == a@[i as int]);
            assert(b@.skip(i as int)[0] == b@[i as int]);
            assert(a@.skip(i as int).drop_first() =~= a@.skip(i as int + 1));
            assert(b@.skip(i as int).drop_first() =~= b@.skip(i as int + 1));
        }
        if (ca as u32) < (cb as u32) {
            return true;
        }
        if (ca as u32) > (cb as u32) {
            return false;
        }
        i += 1;
    }
    proof {
        if i >= an {
            assert(a@.skip(i as int).len() == 0);
        } else {
            assert(b@.skip(i as int).len() == 0);
            assert(a@.skip(i as int).len() > 0);
        }
    }
    i >= an
}

/// Compares two optional texts under the catalog key order.
pub fn opt_le_exec(a: &Option<String>, b: &Option<String>) -> (r: bool)
    ensures
        r == opt_le(a.deep_view(), b.deep_view()),
{
    match (a, b) {
        (Option::None, _) => true,
        (Option::Some(_), Option::None) => false,
        (Option::Some(x), Option::Some(y)) => str_le_exec(x.as_str(), y.as_str()),
    }
}

/// A type listed by the catalog, sorted by an optional timestamp text.
pub trait SortKey: DeepView + Sized {
    /// The key an entry sorts under.
    spec fn sort_key(&self) -> Option<Seq<char>>;

    /// Compares two entries' keys under [`opt_le`].
    fn key_le(&self, other: &Self) -> (r: bool)
        ensures
            r == opt_le(self.sort_key(), other.sort_key()),
    ;
}

/// Sorted most-recent-first: later entries never exceed earlier ones.
pub open spec fn sorted_desc<T: SortKey>(s: Seq<T>) -> bool {
    forall|i: int, j: int|
        0 <= i < j < s.len() ==> opt_le(#[trigger] s[j].sort_key(), #[trigger] s[i].sort_key())
}

/// Sorts entries most-recent-first, keeping exactly the given entries.
pub fn sort_by_key_desc<T: SortKey>(v: Vec<T>) -> (r: Vec<T>)
    ensures
        r@.to_multiset() == v@.to_multiset(),
        r.deep_view().to_multiset() == v.deep_view().to_multiset(),
        sorted_desc(r@),
{
    broadcast use vstd::seq_lib::group_to_multiset_ensures;

    let mut rest = v;
    let mut out: Vec<T> = Vec::new();
    let ghost dv = rest.deep_view();
    proof {
        assert(out@.to_multiset().add(rest@.to_multiset()) =~= v@.to_multiset());
        assert(out.deep_view().to_multiset().add(rest.deep_view().to_multiset()) =~= dv.to_multiset());
    }
    while rest.len() > 0
        invariant
            dv == v.deep_view(),
            out@.to_multiset().add(rest@.to_multiset()) == v@.to_multiset(),
            out.deep_view().to_multiset().add(rest.deep_view().to_multiset()) == dv.to_multiset(),
            sorted_desc(out@),
        decreases rest@.len(),
    {
        broadcast use vstd::seq_lib::group_to_multiset_ensures;

        let ghost old_rest = rest@;
        let ghost old_out = out@;
        let ghost old_rest_d = rest.deep_view();
        let ghost old_out_d = out.deep_view();
        let x = rest.remove(0);
        proof {
            assert(rest@.to_multiset() =~= old_rest.to_multiset().remove(x));
            assert(rest.deep_view() =~= old_rest_d.remove(0));
            assert(rest.deep_view().to_multiset() =~= old_rest_d.to_multiset().remove(
                old_rest_d[0],
            ));
            assert(old_rest_d[0] == x.deep_view());
        }
        // Position of the first entry strictly below `x`, if any.
        let mut pos: usize = 0;
        while pos < out.len() && x.key_le(&out[pos])
            invariant
                0 <= pos <= out@.len(),
                out@ == old_out,
                sorted_desc(out@),
                forall|k: int| 0 <= k < pos ==> opt_le(x.sort_key(), #[trigger] out@[k].sort_key()),
            decreases out@.len() - pos,
        {
            pos += 1;
        }
        proof {
            if pos < out@.len() {
                lemma_opt_le_total(out@[pos as int].sort_key(), x.sort_key());
                assert(opt_le(out@[pos as int].sort_key(), x.sort_key()));
            }
        }
        out.insert(pos, x);
        proof {
            let s = old_out.insert(pos as int, x);
            assert(out@ == s);
            assert(s =~= old_out.take(pos as int) + (seq![x] + old_out.skip(pos as int)));
            vstd::seq_lib::lemma_multiset_commutative(
                old_out.take(pos as int),
                seq![x] + old_out.skip(pos as int),
            );
            vstd::seq_lib::lemma_multiset_commutative(seq![x], old_out.skip(pos as int));
            assert(seq![x].to_multiset() =~= Multiset::<T>::empty().insert(x));
            assert(old_out.take(pos as int) + old_out.skip(pos as int) =~= old_out);
            vstd::seq_lib::lemma_multiset_commutative(
                old_out.take(pos as int),
                old_out.skip(pos as int),
            );
            assert(out@.to_multiset() =~= old_out.to_multiset().insert(x));
            assert(out@.to_multiset().add(rest@.to_multiset()) =~= v@.to_multiset());
            let sd = out.deep_view();
            assert(sd =~= old_out_d.take(pos as int) + (seq![x.deep_view()] + old_out_d.skip(
                pos as int,
            )));
            vstd::seq_lib::lemma_multiset_commutative(
                old_out_d.take(pos as int),
                seq![x.deep_view()] + old_out_d.skip(pos as int),
            );
            vstd::seq_lib::lemma_multiset_commutative(
                seq![x.deep_view()],
                old_out_d.skip(pos as int),
            );
            assert(seq![x.deep_view()].to_multiset() =~= Multiset::<T::V>::empty().insert(
                x.deep_view(),
            ));
            assert(old_out_d.take(pos as int) + old_out_d.skip(pos as int) =~= old_out_d);
            vstd::seq_lib::lemma_multiset_commutative(
                old_out_d.take(pos as int),
                old_out_d.skip(pos as int),
            );
            assert(sd.to_multiset() =~= old_out_d.to_multiset().insert(x.deep_view()));
            assert(sd.to_multiset().add(rest.deep_view().to_multiset()) =~= dv.to_multiset());
            assert forall|i: int, j: int| 0 <= i < j < s.len() implies opt_le(
                #[trigger] s[j].sort_key(),
                #[trigger] s[i].sort_key(),
            ) by {
                if j < pos {
                    assert(s[i] == old_out[i] && s[j] == old_out[j]);
                } else if i > pos {
                    assert(s[i] == old_out[i - 1] && s[j] == old_out[j - 1]);
                } else if j == pos {
                    // s[j] is x; everything before pos is at or above x.
                    assert(s[i] == old_out[i] && s[j] == x);
                } else if i == pos {
                    // s[i] is x; s[j] is an old entry at or after pos.
                    assert(s[j] == old_out[j - 1]);
                    assert(opt_le(old_out[pos as int].sort_key(), x.sort_key()));
                    if j - 1 > pos {
                        assert(opt_le(
                            old_out[j - 1].sort_key(),
                            old_out[pos as int].sort_key(),
                        ));
                        lemma_opt_le_trans(
                            old_out[j - 1].sort_key(),
                            old_out[pos as int].sort_key(),
                            x.sort_key(),
                        );
                    }
                } else {
                    // i < pos < j: both sides are old entries around x.
                    assert(s[i] == old_out[i] && s[j] == old_out[j - 1]);
                    assert(opt_le(old_out[j - 1].sort_key(), old_out[i].sort_key()));
                }
            }
        }
    }
    out
}

} // verus!
