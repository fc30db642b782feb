//! The order in which the homepage lists the articles of a year.

use vstd::prelude::*;
use crate::article::Article;
use crate::date::{Date, date_before};

verus! {

broadcast use vstd::seq_lib::group_seq_properties;

/// `a` is not older than `b`: the order in which the homepage lists articles.
pub open spec fn not_older(a: Article, b: Article) -> bool {
    !date_before(a.date, b.date)
}

/// A sequence of articles that lists every article before the older ones.
pub open spec fn is_newest_first(s: Seq<Article>) -> bool {
    forall|i: int, j: int| 0 <= i < j < s.len() ==> not_older(#[trigger] s[i], #[trigger] s[j])
}

/// `a` put into `s` just before the first article that is older than `a`,
/// so after every article of its own date.
pub open spec fn insert_newest_first(s: Seq<Article>, a: Article) -> Seq<Article>
    decreases s.len(),
{
    if s.len() == 0 {
        seq![a]
    } else if date_before(s[0].date, a.date) {
        seq![a] + s
    } else {
        seq![s[0]] + insert_newest_first(s.drop_first(), a)
    }
}

/// The articles of `s` sorted newest first by a stable sort: articles of the
/// same date keep the order they have in `s`.
pub open spec fn newest_first(s: Seq<Article>) -> Seq<Article>
    decreases s.len(),
{
    if s.len() == 0 {
        s
    } else {
        insert_newest_first(newest_first(s.drop_last()), s.last())
    }
}

proof fn lemma_date_order(a: Date, b: Date, c: Date)
    ensures
        !date_before(a, a),
        date_before(a, b) ==> !date_before(b, a),
        date_before(a, b) && date_before(b, c) ==> date_before(a, c),
        !date_before(a, b) && !date_before(b, a) ==> a == b,
        !date_before(a, b) && !date_before(b, c) ==> !date_before(a, c),
{
}

/// Inserting at the first older article is what `insert_newest_first` does.
pub(crate) proof fn lemma_insert_position(s: Seq<Article>, a: Article, p: int)
    requires
        0 <= p <= s.len(),
        forall|i: int| 0 <= i < p ==> !date_before((#[trigger] s[i]).date, a.date),
        p < s.len() ==> date_before(s[p].date, a.date),
    ensures
        insert_newest_first(s, a) == s.insert(p, a),
    decreases s.len(),
{
    if s.len() == 0 {
        assert(s.insert(p, a) =~= seq![a]);
    } else if date_before(s[0].date, a.date) {
        assert(s.insert(p, a) =~= seq![a] + s);
    } else {
        let t = s.drop_first();
        assert forall|i: int| 0 <= i < p - 1 implies !date_before((#[trigger] t[i]).date, a.date) by {
            assert(t[i] == s[i + 1]);
        }
        lemma_insert_position(t, a, p - 1);
        assert(s.insert(p, a) =~= seq![s[0]] + t.insert(p - 1, a));
    }
}

pub(crate) proof fn lemma_insert_len(s: Seq<Article>, a: Article)
    ensures
        insert_newest_first(s, a).len() == s.len() + 1,
    decreases s.len(),
{
    if s.len() > 0 && !date_before(s[0].date, a.date) {
        lemma_insert_len(s.drop_first(), a);
    }
}

proof fn lemma_insert_keeps_order(s: Seq<Article>, a: Article)
    requires
        is_newest_first(s),
    ensures
        is_newest_first(insert_newest_first(s, a)),
        insert_newest_first(s, a).len() == s.len() + 1,
        forall|x: Article| #[trigger] insert_newest_first(s, a).contains(x) <==> (s.contains(x) || x == a),
    decreases s.len(),
{
    let r = insert_newest_first(s, a);
    if s.len() == 0 {
        assert(r =~= seq![a]);
    } else if date_before(s[0].date, a.date) {
        assert forall|i: int, j: int| 0 <= i < j < r.len() implies not_older(#[trigger] r[i], #[trigger] r[j]) by {
            if i == 0 {
                lemma_date_order(s[0].date, a.date, s[j - 1].date);
                lemma_date_order(s[j - 1].date, s[0].date, a.date);
                assert(not_older(s[0], s[j - 1]));
            }
        }
        assert forall|x: Article| #[trigger] r.contains(x) <==> (s.contains(x) || x == a) by {
            if r.contains(x) {
                let k = choose|k: int| 0 <= k < r.len() && r[k] == x;
                if k > 0 { assert(s[k - 1] == x); }
            }
            if s.contains(x) {
                let k = choose|k: int| 0 <= k < s.len() && s[k] == x;
                assert(r[k + 1] == x);
            }
            if x == a { assert(r[0] == x); }
        }
    } else {
        let t = s.drop_first();
        assert(is_newest_first(t)) by {
            assert forall|i: int, j: int| 0 <= i < j < t.len() implies not_older(#[trigger] t[i], #[trigger] t[j]) by {
                assert(t[i] == s[i + 1] && t[j] == s[j + 1]);
            }
        }
        lemma_insert_keeps_order(t, a);
        let rt = insert_newest_first(t, a);
        assert(r == seq![s[0]] + rt);
        assert forall|i: int, j: int| 0 <= i < j < r.len() implies not_older(#[trigger] r[i], #[trigger] r[j]) by {
            if i == 0 {
                let x = rt[j - 1];
                assert(rt.contains(x));
                if x == a {
                } else {
                    let k = choose|k: int| 0 <= k < t.len() && t[k] == x;
                    assert(s[k + 1] == x);
                    assert(not_older(s[0], s[k + 1]));
                }
            } else {
                assert(r[i] == rt[i - 1] && r[j] == rt[j - 1]);
            }
        }
        assert forall|x: Article| #[trigger] r.contains(x) <==> (s.contains(x) || x == a) by {
            if r.contains(x) {
                let k = choose|k: int| 0 <= k < r.len() && r[k] == x;
                if k > 0 {
                    assert(rt[k - 1] == x);
                    assert(rt.contains(x));
                    if t.contains(x) {
                        let m = choose|m: int| 0 <= m < t.len() && t[m] == x;
                        assert(s[m + 1] == x);
                    }
                }
            }
            if s.contains(x) {
                let k = choose|k: int| 0 <= k < s.len() && s[k] == x;
                if k > 0 {
                    assert(t[k - 1] == x);
                    assert(t.contains(x));
                    assert(rt.contains(x));
                    let m = choose|m: int| 0 <= m < rt.len() && rt[m] == x;
                    assert(r[m + 1] == x);
                }
            }
            if x == a {
                assert(rt.contains(x));
                let m = choose|m: int| 0 <= m < rt.len() && rt[m] == x;
                assert(r[m + 1] == x);
            }
        }
    }
}


/// Law: `newest_first` lists every article before the older ones.
pub proof fn lemma_newest_first_is_sorted(s: Seq<Article>)
    ensures
        is_newest_first(newest_first(s)),
    decreases s.len(),
{
    if s.len() > 0 {
        lemma_newest_first_is_sorted(s.drop_last());
        lemma_insert_keeps_order(newest_first(s.drop_last()), s.last());
    }
}

pub(crate) proof fn lemma_insert_at_front_multiset(s: Seq<Article>, x: Article)
    ensures
        (seq![x] + s).to_multiset() == s.to_multiset().insert(x),
    decreases s.len(),
{
    broadcast use vstd::multiset::group_multiset_axioms;
    if s.len() == 0 {
        assert(seq![x] + s =~= Seq::<Article>::empty().push(x));
        assert(Seq::<Article>::empty().to_multiset() =~= s.to_multiset());
    } else {
        let t = s.drop_last();
        lemma_insert_at_front_multiset(t, x);
        assert(seq![x] + s =~= (seq![x] + t).push(s.last()));
        assert(s =~= t.push(s.last()));
        assert((seq![x] + s).to_multiset() =~= s.to_multiset().insert(x));
    }
}

proof fn lemma_insert_multiset(s: Seq<Article>, a: Article)
    ensures
        insert_newest_first(s, a).to_multiset() == s.to_multiset().insert(a),
    decreases s.len(),
{
    broadcast use vstd::multiset::group_multiset_axioms;
    if s.len() == 0 {
        lemma_insert_at_front_multiset(s, a);
        assert(seq![a] + s =~= seq![a]);
    } else if date_before(s[0].date, a.date) {
        lemma_insert_at_front_multiset(s, a);
    } else {
        let t = s.drop_first();
        lemma_insert_multiset(t, a);
        lemma_insert_at_front_multiset(insert_newest_first(t, a), s[0]);
        lemma_insert_at_front_multiset(t, s[0]);
        assert(seq![s[0]] + t =~= s);
        assert(insert_newest_first(s, a).to_multiset() =~= s.to_multiset().insert(a));
    }
}

/// Law: `newest_first` neither loses nor adds an article.
pub proof fn lemma_newest_first_same_articles(s: Seq<Article>)
    ensures
        newest_first(s).to_multiset() == s.to_multiset(),
    decreases s.len(),
{
    broadcast use vstd::multiset::group_multiset_axioms;
    if s.len() > 0 {
        lemma_newest_first_same_articles(s.drop_last());
        lemma_insert_multiset(newest_first(s.drop_last()), s.last());
        assert(s =~= s.drop_last().push(s.last()));
    }
}

/// The articles of the day `d`.
pub open spec fn dated(d: Date) -> spec_fn(Article) -> bool {
    |a: Article| a.date == d
}

proof fn lemma_insert_stable(s: Seq<Article>, a: Article, d: Date)
    requires
        is_newest_first(s),
    ensures
        insert_newest_first(s, a).filter(dated(d)) == s.filter(dated(d)) + (if a.date == d {
            seq![a]
        } else {
            Seq::empty()
        }),
    decreases s.len(),
{
    let f = dated(d);
    let extra = if a.date == d { seq![a] } else { Seq::<Article>::empty() };
    if s.len() == 0 {
        Seq::<Article>::empty().lemma_filter_prepend(a, f);
        assert(seq![a] + Seq::<Article>::empty() =~= seq![a]);
        reveal(Seq::filter);
        assert(s.filter(f) =~= Seq::<Article>::empty());
        assert(s.filter(f) + extra =~= extra);
        assert(Seq::<Article>::empty().filter(f) =~= Seq::<Article>::empty());
    } else if date_before(s[0].date, a.date) {
        s.lemma_filter_prepend(a, f);
        if a.date == d {
            // every article of s is older than a, so none is of the day d
            assert forall|i: int| 0 <= i < s.len() implies !f(#[trigger] s[i]) by {
                if i > 0 {
                    assert(not_older(s[0], s[i]));
                    lemma_date_order(s[i].date, s[0].date, a.date);
                }
            }
            s.lemma_all_neg_filter_empty(f);
            assert(s.filter(f) + extra =~= extra);
            assert(extra + s.filter(f) =~= extra);
        } else {
            assert(Seq::<Article>::empty() + s.filter(f) =~= s.filter(f));
            assert(s.filter(f) + extra =~= s.filter(f));
        }
    } else {
        let t = s.drop_first();
        assert(is_newest_first(t)) by {
            assert forall|i: int, j: int| 0 <= i < j < t.len() implies not_older(#[trigger] t[i], #[trigger] t[j]) by {
                assert(t[i] == s[i + 1] && t[j] == s[j + 1]);
            }
        }
        lemma_insert_stable(t, a, d);
        let head = if f(s[0]) { seq![s[0]] } else { Seq::<Article>::empty() };
        insert_newest_first(t, a).lemma_filter_prepend(s[0], f);
        t.lemma_filter_prepend(s[0], f);
        assert(seq![s[0]] + t =~= s);
        assert(head + (t.filter(f) + extra) =~= (head + t.filter(f)) + extra);
    }
}

/// Law: `newest_first` is stable: the articles of any one day come out in
/// the order in which they came in.
pub proof fn lemma_newest_first_stable(s: Seq<Article>, d: Date)
    ensures
        newest_first(s).filter(dated(d)) == s.filter(dated(d)),
    decreases s.len(),
{
    if s.len() > 0 {
        let t = s.drop_last();
        lemma_newest_first_stable(t, d);
        lemma_newest_first_is_sorted(t);
        lemma_insert_stable(newest_first(t), s.last(), d);
        assert(s =~= t.push(s.last()));
        t.lemma_filter_push(s.last(), dated(d));
        if s.last().date == d {
            assert(t.filter(dated(d)) + seq![s.last()] =~= t.filter(dated(d)).push(s.last()));
        } else {
            assert(t.filter(dated(d)) + Seq::<Article>::empty() =~= t.filter(dated(d)));
        }
    }
}

} // verus!
