//! Laws that relate the yearly archives of different article lists.

use vstd::prelude::*;
use vstd::multiset::Multiset;
use crate::article::{Article, is_published_fn, published};
use crate::newest_first::{
    is_newest_first, lemma_insert_at_front_multiset, lemma_newest_first_is_sorted,
    lemma_newest_first_same_articles, newest_first, not_older,
};
use crate::renderer::{YearArchive, YearArchives, archive_of, archives_hold, is_listed, listed_in_year};

verus! {

broadcast use {vstd::seq_lib::group_seq_properties, vstd::multiset::group_multiset_axioms};

// ---------------------------------------------------------------------------
// Sequences and filters
// ---------------------------------------------------------------------------

/// Filtering twice is filtering once by both conditions.
proof fn lemma_filter_filter(
    s: Seq<Article>,
    g: spec_fn(Article) -> bool,
    f: spec_fn(Article) -> bool,
    h: spec_fn(Article) -> bool,
)
    requires
        forall|x: Article| #[trigger] h(x) == (g(x) && f(x)),
    ensures
        s.filter(g).filter(f) == s.filter(h),
    decreases s.len(),
{
    reveal(Seq::filter);
    if s.len() > 0 {
        let t = s.drop_last();
        let a = s.last();
        lemma_filter_filter(t, g, f, h);
        assert(s =~= t.push(a));
        t.lemma_filter_push(a, g);
        t.lemma_filter_push(a, h);
        t.filter(g).lemma_filter_push(a, f);
    }
}

/// The multiset of a filtered sequence is the filtered multiset.
proof fn lemma_filter_to_multiset(s: Seq<Article>, f: spec_fn(Article) -> bool)
    ensures
        s.filter(f).to_multiset() == s.to_multiset().filter(f),
    decreases s.len(),
{
    reveal(Seq::filter);
    if s.len() == 0 {
        assert(s.filter(f) =~= s);
        assert(s.to_multiset().filter(f) =~= s.to_multiset());
    } else {
        let t = s.drop_last();
        let a = s.last();
        lemma_filter_to_multiset(t, f);
        assert(s =~= t.push(a));
        t.lemma_filter_push(a, f);
        t.to_multiset_ensures();
        t.filter(f).to_multiset_ensures();
        assert(s.filter(f).to_multiset() =~= s.to_multiset().filter(f));
    }
}

/// No two articles of the multiset share a day, and none occurs twice.
pub open spec fn days_distinct(m: Multiset<Article>) -> bool {
    &&& forall|x: Article| #[trigger] m.count(x) <= 1
    &&& forall|x: Article, y: Article|
        #[trigger] m.count(x) > 0 && #[trigger] m.count(y) > 0 && x.date == y.date ==> x == y
}

/// No two positions of the sequence hold articles of the same day.
pub open spec fn distinct_days(s: Seq<Article>) -> bool {
    forall|i: int, j: int| 0 <= i < j < s.len() ==> (#[trigger] s[i]).date != (#[trigger] s[j]).date
}

proof fn lemma_count_two(s: Seq<Article>, x: Article)
    requires
        s.to_multiset().count(x) >= 2,
    ensures
        exists|i: int, j: int| 0 <= i < j < s.len() && s[i] == x && s[j] == x,
    decreases s.len(),
{
    let t = s.drop_last();
    assert(s =~= t.push(s.last()));
    t.to_multiset_ensures();
    if s.len() == 0 {
        assert(s.to_multiset() =~= Multiset::empty());
    } else if s.last() == x {
        assert(t.to_multiset().count(x) > 0);
        assert(t.contains(x));
        let i = choose|i: int| 0 <= i < t.len() && t[i] == x;
        assert(s[i] == x && s[s.len() - 1] == x);
    } else {
        lemma_count_two(t, x);
        let (i, j) = choose|i: int, j: int| 0 <= i < j < t.len() && t[i] == x && t[j] == x;
        assert(s[i] == x && s[j] == x);
    }
}

proof fn lemma_distinct_days_multiset(s: Seq<Article>)
    requires
        distinct_days(s),
    ensures
        days_distinct(s.to_multiset()),
{
    s.to_multiset_ensures();
    assert forall|x: Article| #[trigger] s.to_multiset().count(x) <= 1 by {
        if s.to_multiset().count(x) >= 2 {
            lemma_count_two(s, x);
            let (i, j) = choose|i: int, j: int| 0 <= i < j < s.len() && s[i] == x && s[j] == x;
            assert(s[i].date == s[j].date);
        }
    }
    assert forall|x: Article, y: Article|
        #[trigger] s.to_multiset().count(x) > 0 && #[trigger] s.to_multiset().count(y) > 0 && x.date == y.date
        implies x == y by {
        assert(s.contains(x) && s.contains(y));
        let i = choose|i: int| 0 <= i < s.len() && s[i] == x;
        let j = choose|j: int| 0 <= j < s.len() && s[j] == y;
        if i < j {
            assert(s[i].date != s[j].date);
        } else if j < i {
            assert(s[j].date != s[i].date);
        }
    }
}

/// Two newest-first sequences of the same articles, no two of one day, are
/// the same sequence.
proof fn lemma_sorted_unique(a: Seq<Article>, b: Seq<Article>)
    requires
        is_newest_first(a),
        is_newest_first(b),
        a.to_multiset() == b.to_multiset(),
        days_distinct(a.to_multiset()),
    ensures
        a == b,
    decreases a.len(),
{
    a.to_multiset_ensures();
    b.to_multiset_ensures();
    if a.len() == 0 {
        assert(b.len() == 0);
        assert(a =~= b);
    } else {
        assert(b.len() > 0);
        let x = a[0];
        let y = b[0];
        assert(a.contains(x));
        assert(a.to_multiset().count(x) > 0);
        assert(b.contains(x));
        let k = choose|k: int| 0 <= k < b.len() && b[k] == x;
        assert(b.contains(y));
        assert(b.to_multiset().count(y) > 0);
        assert(a.contains(y));
        let m = choose|m: int| 0 <= m < a.len() && a[m] == y;
        if m > 0 {
            assert(not_older(a[0], a[m]));
        }
        if k > 0 {
            assert(not_older(b[0], b[k]));
        }
        assert(x.date == y.date);
        assert(x == y);
        let a1 = a.drop_first();
        let b1 = b.drop_first();
        lemma_insert_at_front_multiset(a1, x);
        lemma_insert_at_front_multiset(b1, x);
        assert(seq![x] + a1 =~= a);
        assert(seq![x] + b1 =~= b);
        assert(a1.to_multiset() =~= b1.to_multiset()) by {
            assert forall|z: Article| a1.to_multiset().count(z) == b1.to_multiset().count(z) by {
                assert(a.to_multiset().count(z) == b.to_multiset().count(z));
                assert(a.to_multiset() == a1.to_multiset().insert(x));
                assert(b.to_multiset() == b1.to_multiset().insert(x));
                assert(a1.to_multiset().insert(x).count(z) == a1.to_multiset().count(z) + if z == x { 1int } else { 0int });
                assert(b1.to_multiset().insert(x).count(z) == b1.to_multiset().count(z) + if z == x { 1int } else { 0int });
            }
        }
        assert(is_newest_first(a1)) by {
            assert forall|i: int, j: int| 0 <= i < j < a1.len() implies not_older(#[trigger] a1[i], #[trigger] a1[j]) by {
                assert(a1[i] == a[i + 1] && a1[j] == a[j + 1]);
            }
        }
        assert(is_newest_first(b1)) by {
            assert forall|i: int, j: int| 0 <= i < j < b1.len() implies not_older(#[trigger] b1[i], #[trigger] b1[j]) by {
                assert(b1[i] == b[i + 1] && b1[j] == b[j + 1]);
            }
        }
        assert(days_distinct(a1.to_multiset())) by {
            assert forall|z: Article| #[trigger] a1.to_multiset().count(z) <= a.to_multiset().count(z) by {}
        }
        lemma_sorted_unique(a1, b1);
        assert(a =~= b);
    }
}

// ---------------------------------------------------------------------------
// The archives of an article list are unique
// ---------------------------------------------------------------------------

/// Some archive of `arch` is that of `year`.
pub open spec fn has_year(arch: Seq<YearArchive>, year: int) -> bool {
    exists|i: int| 0 <= i < arch.len() && (#[trigger] arch[i]).year == year
}

/// Two archive lists have the same years in the same order, and the same
/// articles in the same order under each year.
pub open spec fn same_archives(a: Seq<YearArchive>, b: Seq<YearArchive>) -> bool {
    &&& a.len() == b.len()
    &&& forall|i: int| 0 <= i < a.len() ==> (#[trigger] a[i]).year == b[i].year && a[i].articles@ == b[i].articles@
}

proof fn lemma_has_year_iff_listed(arch: Seq<YearArchive>, s: Seq<Article>, p: bool, y: int)
    requires
        archives_hold(arch, s, p),
    ensures
        has_year(arch, y) <==> s.filter(listed_in_year(p, y)).len() > 0,
{
    broadcast use vstd::seq_lib::group_filter_ensures;
    let f = listed_in_year(p, y);
    if has_year(arch, y) {
        let i = choose|i: int| 0 <= i < arch.len() && (#[trigger] arch[i]).year == y;
        assert(arch[i].articles@ == newest_first(s.filter(f)));
        lemma_newest_first_same_articles(s.filter(f));
        newest_first(s.filter(f)).to_multiset_ensures();
        s.filter(f).to_multiset_ensures();
    }
    if s.filter(f).len() > 0 {
        let x = s.filter(f)[0];
        s.lemma_filter_pred(f, 0);
        assert(s.filter(f).contains(x));
        s.lemma_filter_contains_rev(f, x);
        let j = choose|j: int| 0 <= j < s.len() && s[j] == x;
        assert(is_listed(s[j], p));
        let i = choose|i: int| 0 <= i < arch.len() && (#[trigger] arch[i]).year == s[j].date.year;
        assert(arch[i].year == y);
    }
}

proof fn lemma_descending_years_unique(a: Seq<YearArchive>, b: Seq<YearArchive>)
    requires
        forall|i: int, j: int| 0 <= i < j < a.len() ==> (#[trigger] a[i]).year > (#[trigger] a[j]).year,
        forall|i: int, j: int| 0 <= i < j < b.len() ==> (#[trigger] b[i]).year > (#[trigger] b[j]).year,
        forall|y: int| has_year(a, y) <==> has_year(b, y),
    ensures
        a.len() == b.len(),
        forall|i: int| 0 <= i < a.len() ==> (#[trigger] a[i]).year == b[i].year,
    decreases a.len(),
{
    if a.len() == 0 {
        if b.len() > 0 {
            assert(has_year(b, b[0].year as int));
        }
    } else if b.len() == 0 {
        assert(has_year(a, a[0].year as int));
    } else {
        let y0 = a[0].year as int;
        assert(has_year(a, y0));
        let k = choose|k: int| 0 <= k < b.len() && (#[trigger] b[k]).year == y0;
        assert(has_year(b, b[0].year as int));
        let m = choose|m: int| 0 <= m < a.len() && (#[trigger] a[m]).year == b[0].year;
        if m > 0 { assert(a[0].year > a[m].year); }
        if k > 0 { assert(b[0].year > b[k].year); }
        assert(b[0].year == y0);
        let a1 = a.drop_first();
        let b1 = b.drop_first();
        assert forall|y: int| has_year(a1, y) <==> has_year(b1, y) by {
            if has_year(a1, y) {
                let i = choose|i: int| 0 <= i < a1.len() && (#[trigger] a1[i]).year == y;
                assert(a[i + 1].year == y);
                assert(a[0].year > a[i + 1].year);
                assert(has_year(a, y));
                let j = choose|j: int| 0 <= j < b.len() && (#[trigger] b[j]).year == y;
                assert(j != 0);
                assert(b1[j - 1].year == y);
            }
            if has_year(b1, y) {
                let i = choose|i: int| 0 <= i < b1.len() && (#[trigger] b1[i]).year == y;
                assert(b[i + 1].year == y);
                assert(b[0].year > b[i + 1].year);
                assert(has_year(b, y));
                let j = choose|j: int| 0 <= j < a.len() && (#[trigger] a[j]).year == y;
                assert(j != 0);
                assert(a1[j - 1].year == y);
            }
        }
        assert forall|i: int, j: int| 0 <= i < j < a1.len() implies (#[trigger] a1[i]).year > (#[trigger] a1[j]).year by {
            assert(a[i + 1].year > a[j + 1].year);
        }
        assert forall|i: int, j: int| 0 <= i < j < b1.len() implies (#[trigger] b1[i]).year > (#[trigger] b1[j]).year by {
            assert(b[i + 1].year > b[j + 1].year);
        }
        lemma_descending_years_unique(a1, b1);
        assert forall|i: int| 0 <= i < a.len() implies (#[trigger] a[i]).year == b[i].year by {
            if i > 0 {
                assert(a1[i - 1].year == b1[i - 1].year);
            }
        }
    }
}

/// Law: the archives of an article list are unique: two archive lists that
/// are both those of the same articles (see `archives_hold`) are the same.
pub proof fn law_archives_unique(a: Seq<YearArchive>, b: Seq<YearArchive>, articles: Seq<Article>, is_production: bool)
    requires
        archives_hold(a, articles, is_production),
        archives_hold(b, articles, is_production),
    ensures
        same_archives(a, b),
{
    assert forall|y: int| has_year(a, y) <==> has_year(b, y) by {
        lemma_has_year_iff_listed(a, articles, is_production, y);
        lemma_has_year_iff_listed(b, articles, is_production, y);
    }
    lemma_descending_years_unique(a, b);
}

// ---------------------------------------------------------------------------
// Production and preview
// ---------------------------------------------------------------------------

/// Archives are those of a production build of `articles` exactly when they
/// are those of a preview built from the published articles alone.
pub proof fn lemma_production_is_preview_of_published(arch: Seq<YearArchive>, articles: Seq<Article>)
    ensures
        archives_hold(arch, articles, true) <==> archives_hold(arch, published(articles), false),
{
    broadcast use vstd::seq_lib::group_filter_ensures;
    let pubs = published(articles);
    assert forall|y: int| #[trigger] articles.filter(listed_in_year(true, y)) == pubs.filter(listed_in_year(false, y)) by {
        lemma_filter_filter(articles, is_published_fn(), listed_in_year(false, y), listed_in_year(true, y));
    }
    assert forall|i: int| 0 <= i < arch.len() implies archive_of(articles, true, (#[trigger] arch[i]).year as int)
        == archive_of(pubs, false, arch[i].year as int) by {
        assert(articles.filter(listed_in_year(true, arch[i].year as int)) == pubs.filter(listed_in_year(false, arch[i].year as int)));
    }
    if archives_hold(arch, articles, true) {
        assert forall|j: int| 0 <= j < pubs.len() && is_listed(#[trigger] pubs[j], false) implies exists|i: int|
            0 <= i < arch.len() && (#[trigger] arch[i]).year == pubs[j].date.year by {
            let x = pubs[j];
            articles.lemma_filter_pred(is_published_fn(), j);
            assert(pubs.contains(x));
            articles.lemma_filter_contains_rev(is_published_fn(), x);
            let k = choose|k: int| 0 <= k < articles.len() && articles[k] == x;
            assert(is_listed(articles[k], true));
        }
    }
    if archives_hold(arch, pubs, false) {
        assert forall|j: int| 0 <= j < articles.len() && is_listed(#[trigger] articles[j], true) implies exists|i: int|
            0 <= i < arch.len() && (#[trigger] arch[i]).year == articles[j].date.year by {
            let x = articles[j];
            articles.lemma_filter_contains(is_published_fn(), j);
            assert(pubs.contains(x));
            let k = choose|k: int| 0 <= k < pubs.len() && pubs[k] == x;
            assert(is_listed(pubs[k], false));
        }
    }
}

/// Law: a production build gives the same archives (same years in the same
/// order, same articles in the same order under each) as a preview built
/// from the articles that are not drafts.
pub proof fn law_production_matches_preview_of_published(
    production: YearArchives,
    preview: YearArchives,
    articles: Seq<Article>,
)
    requires
        production.archives_of(articles, true),
        preview.archives_of(published(articles), false),
    ensures
        same_archives(production.archives@, preview.archives@),
{
    lemma_production_is_preview_of_published(production.archives@, articles);
    law_archives_unique(production.archives@, preview.archives@, published(articles), false);
}

// ---------------------------------------------------------------------------
// Order of the input
// ---------------------------------------------------------------------------

/// With no two articles of one day, the archive of a year does not depend on
/// the order of the articles.
proof fn lemma_archive_of_permutation(s: Seq<Article>, perm: Seq<Article>, p: bool, y: int)
    requires
        perm.to_multiset() == s.to_multiset(),
        days_distinct(s.to_multiset()),
    ensures
        archive_of(perm, p, y) == archive_of(s, p, y),
{
    let f = listed_in_year(p, y);
    let x = s.filter(f);
    let z = perm.filter(f);
    lemma_filter_to_multiset(s, f);
    lemma_filter_to_multiset(perm, f);
    lemma_newest_first_same_articles(x);
    lemma_newest_first_same_articles(z);
    lemma_newest_first_is_sorted(x);
    lemma_newest_first_is_sorted(z);
    assert(days_distinct(newest_first(x).to_multiset())) by {
        assert forall|v: Article| #[trigger] s.to_multiset().filter(f).count(v) <= s.to_multiset().count(v) by {}
    }
    lemma_sorted_unique(newest_first(z), newest_first(x));
}

/// Archives hold of a permutation of articles, no two of one day, exactly
/// when they hold of the articles.
pub proof fn lemma_archives_of_permutation(arch: Seq<YearArchive>, articles: Seq<Article>, perm: Seq<Article>, p: bool)
    requires
        perm.to_multiset() == articles.to_multiset(),
        distinct_days(articles),
        archives_hold(arch, articles, p),
    ensures
        archives_hold(arch, perm, p),
{
    lemma_distinct_days_multiset(articles);
    assert forall|i: int| 0 <= i < arch.len() implies (#[trigger] arch[i]).articles@ == archive_of(perm, p, arch[i].year as int) by {
        lemma_archive_of_permutation(articles, perm, p, arch[i].year as int);
    }
    articles.to_multiset_ensures();
    perm.to_multiset_ensures();
    assert forall|j: int| 0 <= j < perm.len() && is_listed(#[trigger] perm[j], p) implies exists|i: int|
        0 <= i < arch.len() && (#[trigger] arch[i]).year == perm[j].date.year by {
        let x = perm[j];
        assert(perm.contains(x));
        assert(perm.to_multiset().count(x) > 0);
        assert(articles.contains(x));
        let k = choose|k: int| 0 <= k < articles.len() && articles[k] == x;
        assert(is_listed(articles[k], p));
    }
}

/// Law: when no two articles share a day, any reordering of the articles
/// gives the same archives (same years in the same order, same articles in
/// the same order under each), for production and preview alike.
pub proof fn law_archives_ignore_input_order(
    from_articles: YearArchives,
    from_perm: YearArchives,
    articles: Seq<Article>,
    perm: Seq<Article>,
    is_production: bool,
)
    requires
        distinct_days(articles),
        perm.to_multiset() == articles.to_multiset(),
        from_articles.archives_of(articles, is_production),
        from_perm.archives_of(perm, is_production),
    ensures
        same_archives(from_articles.archives@, from_perm.archives@),
{
    lemma_archives_of_permutation(from_articles.archives@, articles, perm, is_production);
    law_archives_unique(from_articles.archives@, from_perm.archives@, perm, is_production);
}

} // verus!
