use vstd::prelude::*;
use crate::article::Article;
use crate::date::{Date, date_before, is_before};
use crate::newest_first::{
    dated, insert_newest_first, is_newest_first, lemma_insert_len, lemma_insert_position,
    lemma_newest_first_is_sorted, lemma_newest_first_same_articles, lemma_newest_first_stable, newest_first, not_older,
};

verus! {

broadcast use vstd::seq_lib::group_seq_properties;

// ---------------------------------------------------------------------------
// Templates
// ---------------------------------------------------------------------------

/// Whether minijinja compiles a template source.
pub uninterp spec fn spec_template_compiles(source: Seq<char>) -> bool;

/// Compiles `source` with `minijinja::Environment::template_from_str` in a
/// fresh environment.  Claimed: the answer is the one named by
/// `spec_template_compiles`.
#[verifier::external_body]
fn minijinja_compiles(source: &str) -> (r: bool)
    ensures
        r == spec_template_compiles(source@),
{
    minijinja::Environment::new().template_from_str(source).is_ok()
}

/// The page that minijinja renders from the template `article` when the
/// environment holds the templates `homepage` and `article`, with the
/// variables `title`, `content` and `description`; `None` where minijinja
/// reports an error.
pub uninterp spec fn spec_render_article(
    homepage: Seq<char>,
    article: Seq<char>,
    title: Seq<char>,
    content: Seq<char>,
    description: Seq<char>,
) -> Option<Seq<char>>;

/// Adds the two templates to a fresh `minijinja::Environment` under the names
/// `homepage` and `article`, and renders `article` with a context of three
/// string variables.  Claimed: the page, or the failure, is the one named by
/// `spec_render_article`.
#[verifier::external_body]
fn minijinja_render_article(
    homepage: &str,
    article: &str,
    title: &str,
    content: &str,
    description: &str,
) -> (r: Option<String>)
    ensures
        match r {
            Some(page) => spec_render_article(homepage@, article@, title@, content@, description@) == Some(page@),
            None => spec_render_article(homepage@, article@, title@, content@, description@) is None,
        },
{
    let mut env = minijinja::Environment::new();
    env.add_template("homepage", homepage).ok()?;
    env.add_template("article", article).ok()?;
    let context =
        std::collections::BTreeMap::from([("title", title), ("content", content), ("description", description)]);
    env.get_template("article").ok()?.render(context).ok()
}

/// The two templates of a site, both of which compile.
pub struct Renderer {
    article_template: String,
    homepage_template: String,
}

impl Renderer {
    #[verifier::type_invariant]
    spec fn templates_compile(self) -> bool {
        spec_template_compiles(self.article_template@) && spec_template_compiles(self.homepage_template@)
    }

    /// The source of the article template.
    pub closed spec fn article_source(self) -> Seq<char> {
        self.article_template@
    }

    /// The source of the homepage template.
    pub closed spec fn homepage_source(self) -> Seq<char> {
        self.homepage_template@
    }

    /// A renderer for two templates that compile.
    pub fn new(article_template: String, homepage_template: String) -> (r: Renderer)
        requires
            spec_template_compiles(article_template@),
            spec_template_compiles(homepage_template@),
        ensures
            r.article_source() == article_template@,
            r.homepage_source() == homepage_template@,
    {
        Renderer { article_template, homepage_template }
    }

    /// A renderer for two templates, or `None` where one of them does not
    /// compile.
    pub fn try_new(article_template: String, homepage_template: String) -> (r: Option<Renderer>)
        ensures
            r is Some <==> spec_template_compiles(homepage_template@) && spec_template_compiles(article_template@),
            r matches Some(rr) ==> rr.article_source() == article_template@ && rr.homepage_source() == homepage_template@,
    {
        if minijinja_compiles(homepage_template.as_str()) && minijinja_compiles(article_template.as_str()) {
            Some(Renderer::new(article_template, homepage_template))
        } else {
            None
        }
    }

    /// The source of the article template.
    pub fn article_template(&self) -> (r: &str)
        ensures
            r@ == self.article_source(),
    {
        self.article_template.as_str()
    }

    /// The source of the homepage template.
    pub fn homepage_template(&self) -> (r: &str)
        ensures
            r@ == self.homepage_source(),
    {
        self.homepage_template.as_str()
    }

    /// The page of an article: the article template rendered with its title,
    /// HTML content and description.  `None` where minijinja fails.
    pub fn render_article(&self, article: &Article) -> (r: Option<String>)
        ensures
            match r {
                Some(page) => spec_render_article(
                    self.homepage_source(),
                    self.article_source(),
                    article.title@,
                    article.content@,
                    article.description@,
                ) == Some(page@),
                None => spec_render_article(
                    self.homepage_source(),
                    self.article_source(),
                    article.title@,
                    article.content@,
                    article.description@,
                ) is None,
            },
    {
        minijinja_render_article(
            self.homepage_template.as_str(),
            self.article_template.as_str(),
            article.title.as_str(),
            article.content.as_str(),
            article.description.as_str(),
        )
    }
}

// ---------------------------------------------------------------------------
// Yearly archives of the homepage
// ---------------------------------------------------------------------------

/// The articles of one year, newest first.
pub struct YearArchive {
    pub year: i32,
    pub articles: Vec<Article>,
}

/// The archives of the homepage, the most recent year first.
pub struct YearArchives {
    pub archives: Vec<YearArchive>,
}

/// Whether the homepage lists an article: drafts are listed only when the
/// site is not built for production.
pub open spec fn is_listed(a: Article, is_production: bool) -> bool {
    !a.draft || !is_production
}

pub open spec fn listed_in_year(is_production: bool, year: int) -> spec_fn(Article) -> bool {
    |a: Article| is_listed(a, is_production) && a.date.year == year
}

/// What the archive of `year` holds: the listed articles of that year,
/// newest first, articles of one day in the order of `articles`.
pub open spec fn archive_of(articles: Seq<Article>, is_production: bool, year: int) -> Seq<Article> {
    newest_first(articles.filter(listed_in_year(is_production, year)))
}

/// The archives `archives` are those of the listed articles of `articles`:
/// one per year that a listed article has, the most recent year first, each
/// holding `archive_of` its year.
pub open spec fn archives_hold(archives: Seq<YearArchive>, articles: Seq<Article>, is_production: bool) -> bool {
    &&& forall|i: int, j: int|
        0 <= i < j < archives.len() ==> (#[trigger] archives[i]).year > (#[trigger] archives[j]).year
    &&& forall|i: int|
        0 <= i < archives.len() ==> (#[trigger] archives[i]).articles@ == archive_of(
            articles,
            is_production,
            archives[i].year as int,
        )
    &&& forall|i: int| 0 <= i < archives.len() ==> (#[trigger] archives[i]).articles@.len() > 0
    &&& forall|j: int|
        0 <= j < articles.len() && is_listed(#[trigger] articles[j], is_production) ==> exists|i: int|
            0 <= i < archives.len() && (#[trigger] archives[i]).year == articles[j].date.year
}

impl YearArchives {
    /// See `archives_hold`.
    pub open spec fn archives_of(self, articles: Seq<Article>, is_production: bool) -> bool {
        archives_hold(self.archives@, articles, is_production)
    }
}

/// An article that the homepage does not list changes no archive.
proof fn lemma_skip_unlisted(arch: Seq<YearArchive>, done: Seq<Article>, a: Article, prod: bool)
    requires
        archives_hold(arch, done, prod),
        !is_listed(a, prod),
    ensures
        archives_hold(arch, done.push(a), prod),
{
    let now = done.push(a);
    assert forall|y: int| #[trigger] now.filter(listed_in_year(prod, y)) == done.filter(listed_in_year(prod, y)) by {
        done.lemma_filter_push(a, listed_in_year(prod, y));
    }
    assert forall|i: int| 0 <= i < arch.len() implies (#[trigger] arch[i]).articles@ == archive_of(now, prod, arch[i].year as int) by {
        assert(now.filter(listed_in_year(prod, arch[i].year as int)) == done.filter(listed_in_year(prod, arch[i].year as int)));
    }
    assert forall|j: int| 0 <= j < now.len() && is_listed(#[trigger] now[j], prod) implies exists|i: int|
        0 <= i < arch.len() && (#[trigger] arch[i]).year == now[j].date.year by {
        assert(now[j] == done[j]);
    }
}

/// A listed article of a year that has an archive goes into that archive.
proof fn lemma_add_to_archive(
    arch: Seq<YearArchive>,
    new_arch: Seq<YearArchive>,
    done: Seq<Article>,
    a: Article,
    prod: bool,
    q: int,
)
    requires
        archives_hold(arch, done, prod),
        is_listed(a, prod),
        0 <= q < arch.len(),
        arch[q].year == a.date.year,
        new_arch.len() == arch.len(),
        forall|i: int| 0 <= i < arch.len() && i != q ==> new_arch[i] == arch[i],
        new_arch[q].year == arch[q].year,
        new_arch[q].articles@ == insert_newest_first(arch[q].articles@, a),
    ensures
        archives_hold(new_arch, done.push(a), prod),
{
    let now = done.push(a);
    let y0 = a.date.year as int;
    assert forall|y: int| y != y0 implies #[trigger] now.filter(listed_in_year(prod, y)) == done.filter(listed_in_year(prod, y)) by {
        done.lemma_filter_push(a, listed_in_year(prod, y));
    }
    done.lemma_filter_push(a, listed_in_year(prod, y0));
    lemma_newest_first_push(done.filter(listed_in_year(prod, y0)), a);
    assert forall|i: int, j: int| 0 <= i < j < new_arch.len() implies (#[trigger] new_arch[i]).year > (#[trigger] new_arch[j]).year by {
        assert(arch[i].year > arch[j].year);
    }
    assert forall|i: int| 0 <= i < new_arch.len() implies (#[trigger] new_arch[i]).articles@ == archive_of(now, prod, new_arch[i].year as int) by {
        if i != q {
            assert(arch[i].year != arch[q].year) by {
                if i < q { assert(arch[i].year > arch[q].year); } else { assert(arch[q].year > arch[i].year); }
            }
            assert(now.filter(listed_in_year(prod, arch[i].year as int)) == done.filter(listed_in_year(prod, arch[i].year as int)));
        }
    }
    assert forall|i: int| 0 <= i < new_arch.len() implies (#[trigger] new_arch[i]).articles@.len() > 0 by {
        if i == q {
            lemma_insert_len(arch[q].articles@, a);
        } else {
            assert(arch[i].articles@.len() > 0);
        }
    }
    assert forall|j: int| 0 <= j < now.len() && is_listed(#[trigger] now[j], prod) implies exists|i: int|
        0 <= i < new_arch.len() && (#[trigger] new_arch[i]).year == now[j].date.year by {
        if j < done.len() {
            assert(now[j] == done[j]);
            let i = choose|i: int| 0 <= i < arch.len() && (#[trigger] arch[i]).year == done[j].date.year;
            assert(new_arch[i].year == arch[i].year);
        } else {
            assert(new_arch[q].year == now[j].date.year);
        }
    }
}

/// A listed article of a year without an archive opens the archive of its
/// year, at its place among the years.
proof fn lemma_open_archive(
    arch: Seq<YearArchive>,
    new_arch: Seq<YearArchive>,
    done: Seq<Article>,
    a: Article,
    prod: bool,
    q: int,
)
    requires
        archives_hold(arch, done, prod),
        is_listed(a, prod),
        0 <= q <= arch.len(),
        forall|i: int| 0 <= i < q ==> (#[trigger] arch[i]).year > a.date.year,
        q < arch.len() ==> arch[q].year < a.date.year,
        new_arch.len() == arch.len() + 1,
        forall|i: int| 0 <= i < q ==> new_arch[i] == arch[i],
        forall|i: int| q < i < new_arch.len() ==> new_arch[i] == arch[i - 1],
        new_arch[q].year == a.date.year,
        new_arch[q].articles@ == seq![a],
    ensures
        archives_hold(new_arch, done.push(a), prod),
{
    let now = done.push(a);
    let y0 = a.date.year as int;
    let f = listed_in_year(prod, y0);
    assert forall|y: int| y != y0 implies #[trigger] now.filter(listed_in_year(prod, y)) == done.filter(listed_in_year(prod, y)) by {
        done.lemma_filter_push(a, listed_in_year(prod, y));
    }
    assert forall|i: int| 0 <= i < arch.len() implies (#[trigger] arch[i]).year != y0 by {
        if i < q {
        } else {
            assert(i == q || arch[q].year > arch[i].year);
        }
    }
    if done.filter(f).len() > 0 {
        done.lemma_filter_pred(f, 0);
        let x = done.filter(f)[0];
        assert(done.filter(f).contains(x));
        done.lemma_filter_contains_rev(f, x);
        let j = choose|j: int| 0 <= j < done.len() && done[j] == x;
        let i = choose|i: int| 0 <= i < arch.len() && (#[trigger] arch[i]).year == done[j].date.year;
        assert(false);
    }
    done.lemma_filter_push(a, f);
    assert(done.filter(f).push(a) =~= seq![a]);
    lemma_newest_first_push(Seq::empty(), a);
    assert(Seq::<Article>::empty().push(a) =~= seq![a]);
    assert(newest_first(Seq::<Article>::empty()) == Seq::<Article>::empty());
    assert(insert_newest_first(Seq::<Article>::empty(), a) == seq![a]);
    assert forall|i: int, j: int| 0 <= i < j < new_arch.len() implies (#[trigger] new_arch[i]).year > (#[trigger] new_arch[j]).year by {
        if j < q {
            assert(arch[i].year > arch[j].year);
        } else if j == q {
        } else if i < q {
            assert(arch[i].year > arch[j - 1].year || i == j - 1);
        } else if i == q {
            assert(j - 1 == q || arch[q].year > arch[j - 1].year);
        } else {
            assert(arch[i - 1].year > arch[j - 1].year);
        }
    }
    assert forall|i: int| 0 <= i < new_arch.len() implies (#[trigger] new_arch[i]).articles@ == archive_of(now, prod, new_arch[i].year as int) by {
        if i < q {
            assert(now.filter(listed_in_year(prod, arch[i].year as int)) == done.filter(listed_in_year(prod, arch[i].year as int)));
        } else if i > q {
            assert(now.filter(listed_in_year(prod, arch[i - 1].year as int)) == done.filter(listed_in_year(prod, arch[i - 1].year as int)));
        }
    }
    assert forall|i: int| 0 <= i < new_arch.len() implies (#[trigger] new_arch[i]).articles@.len() > 0 by {
        if i < q {
            assert(arch[i].articles@.len() > 0);
        } else if i > q {
            assert(arch[i - 1].articles@.len() > 0);
        }
    }
    assert forall|j: int| 0 <= j < now.len() && is_listed(#[trigger] now[j], prod) implies exists|i: int|
        0 <= i < new_arch.len() && (#[trigger] new_arch[i]).year == now[j].date.year by {
        if j < done.len() {
            assert(now[j] == done[j]);
            let i = choose|i: int| 0 <= i < arch.len() && (#[trigger] arch[i]).year == done[j].date.year;
            if i < q {
                assert(new_arch[i].year == arch[i].year);
            } else {
                assert(new_arch[i + 1].year == arch[i].year);
            }
        } else {
            assert(new_arch[q].year == now[j].date.year);
        }
    }
}

/// The index before which an article of `date` goes in a newest-first list:
/// the first article older than `date`, or the end.
fn first_older(list: &Vec<Article>, date: &Date) -> (p: usize)
    ensures
        p <= list@.len(),
        forall|i: int| 0 <= i < p ==> !date_before((#[trigger] list@[i]).date, *date),
        p < list@.len() ==> date_before(list@[p as int].date, *date),
{
    let mut p: usize = 0;
    while p < list.len()
        invariant
            p <= list@.len(),
            forall|i: int| 0 <= i < p ==> !date_before((#[trigger] list@[i]).date, *date),
        decreases list@.len() - p,
    {
        if is_before(&list[p].date, date) {
            return p;
        }
        p = p + 1;
    }
    p
}

/// The index of the archive of `year`, or of the place where it belongs.
fn year_slot(archives: &Vec<YearArchive>, year: i32) -> (q: usize)
    ensures
        q <= archives@.len(),
        forall|i: int| 0 <= i < q ==> (#[trigger] archives@[i]).year > year,
        q < archives@.len() ==> archives@[q as int].year <= year,
{
    let mut q: usize = 0;
    while q < archives.len()
        invariant
            q <= archives@.len(),
            forall|i: int| 0 <= i < q ==> (#[trigger] archives@[i]).year > year,
        decreases archives@.len() - q,
    {
        if archives[q].year <= year {
            return q;
        }
        q = q + 1;
    }
    q
}

/// `newest_first` of a sequence with one more article at its end.
proof fn lemma_newest_first_push(s: Seq<Article>, a: Article)
    ensures
        newest_first(s.push(a)) == insert_newest_first(newest_first(s), a),
{
    assert(s.push(a).drop_last() =~= s);
}

/// Groups the articles by year for the homepage.  In production drafts are
/// left out.
pub fn create_year_archives(articles: Vec<Article>, is_production: bool) -> (r: YearArchives)
    ensures
        r.archives_of(articles@, is_production),
{
    let ghost orig = articles@;
    let mut rest = articles;
    let mut archives: Vec<YearArchive> = Vec::new();
    let ghost mut k: int = 0;
    while rest.len() > 0
        invariant
            0 <= k <= orig.len(),
            rest@ == orig.skip(k),
            (YearArchives { archives }).archives_of(orig.take(k), is_production),
        decreases rest@.len(),
    {
        let ghost prev = archives@;
        let ghost done = orig.take(k);
        let article = rest.remove(0);
        proof {
            assert(article == orig[k]);
            assert(orig.take(k + 1) =~= done.push(article));
            assert(rest@ =~= orig.skip(k + 1));
        }
        if !article.draft || !is_production {
            let year = article.date.year;
            let q = year_slot(&archives, year);
            if q < archives.len() && archives[q].year == year {
                let mut bucket = archives.remove(q);
                let p = first_older(&bucket.articles, &article.date);
                proof {
                    lemma_insert_position(bucket.articles@, article, p as int);
                }
                bucket.articles.insert(p, article);
                archives.insert(q, bucket);
                proof {
                    lemma_add_to_archive(prev, archives@, done, article, is_production, q as int);
                }
            } else {
                let mut list: Vec<Article> = Vec::new();
                list.push(article);
                archives.insert(q, YearArchive { year, articles: list });
                proof {
                    lemma_open_archive(prev, archives@, done, article, is_production, q as int);
                }
            }
        } else {
            proof {
                lemma_skip_unlisted(prev, done, article, is_production);
            }
        }
        proof {
            k = k + 1;
        }
    }
    proof {
        assert(orig.take(k) =~= orig);
    }
    YearArchives { archives }
}

impl YearArchives {
    /// The years that have an archive, the most recent first: the order in
    /// which the homepage shows them.
    pub fn years(&self) -> (r: Vec<i32>)
        ensures
            r@.len() == self.archives@.len(),
            forall|i: int| 0 <= i < r@.len() ==> r@[i] == (#[trigger] self.archives@[i]).year,
    {
        let mut r: Vec<i32> = Vec::new();
        let mut i: usize = 0;
        while i < self.archives.len()
            invariant
                i <= self.archives@.len(),
                r@.len() == i,
                forall|k: int| 0 <= k < i ==> r@[k] == (#[trigger] self.archives@[k]).year,
            decreases self.archives@.len() - i,
        {
            r.push(self.archives[i].year);
            i = i + 1;
        }
        r
    }
}

/// Law: each archive lists its articles newest first, articles of one day in
/// their original order, and holds exactly the listed articles of its year,
/// none lost and none added.
pub proof fn law_archive_is_sorted_selection(r: YearArchives, articles: Seq<Article>, is_production: bool, i: int, d: Date)
    requires
        r.archives_of(articles, is_production),
        0 <= i < r.archives@.len(),
    ensures
        is_newest_first(r.archives@[i].articles@),
        r.archives@[i].articles@.to_multiset()
            == articles.filter(listed_in_year(is_production, r.archives@[i].year as int)).to_multiset(),
        r.archives@[i].articles@.filter(dated(d))
            == articles.filter(listed_in_year(is_production, r.archives@[i].year as int)).filter(dated(d)),
{
    let sel = articles.filter(listed_in_year(is_production, r.archives@[i].year as int));
    assert(r.archives@[i].articles@ == newest_first(sel));
    lemma_newest_first_is_sorted(sel);
    lemma_newest_first_same_articles(sel);
    lemma_newest_first_stable(sel, d);
}

/// Law: every article that the homepage lists is in the archive of its
/// year, and every article of an archive is a listed article of that year.
pub proof fn law_listed_articles_are_archived(r: YearArchives, articles: Seq<Article>, is_production: bool)
    requires
        r.archives_of(articles, is_production),
    ensures
        forall|j: int| 0 <= j < articles.len() && is_listed(#[trigger] articles[j], is_production) ==> exists|i: int|
            0 <= i < r.archives@.len() && (#[trigger] r.archives@[i]).year == articles[j].date.year
                && r.archives@[i].articles@.contains(articles[j]),
        forall|i: int, k: int|
            0 <= i < r.archives@.len() && 0 <= k < r.archives@[i].articles@.len() ==> {
                let a = #[trigger] r.archives@[i].articles@[k];
                &&& articles.contains(a)
                &&& is_listed(a, is_production)
                &&& a.date.year == r.archives@[i].year
            },
{
    broadcast use vstd::seq_lib::group_filter_ensures;
    assert forall|j: int| 0 <= j < articles.len() && is_listed(#[trigger] articles[j], is_production) implies exists|i: int|
        0 <= i < r.archives@.len() && (#[trigger] r.archives@[i]).year == articles[j].date.year
            && r.archives@[i].articles@.contains(articles[j]) by {
        let i = choose|i: int| 0 <= i < r.archives@.len() && (#[trigger] r.archives@[i]).year == articles[j].date.year;
        let f = listed_in_year(is_production, r.archives@[i].year as int);
        let sel = articles.filter(f);
        articles.lemma_filter_contains(f, j);
        lemma_newest_first_same_articles(sel);
        sel.to_multiset_ensures();
        newest_first(sel).to_multiset_ensures();
        assert(sel.contains(articles[j]));
        assert(sel.to_multiset().count(articles[j]) > 0);
        assert(newest_first(sel).to_multiset().count(articles[j]) > 0);
        assert(r.archives@[i].articles@.contains(articles[j]));
    }
    assert forall|i: int, k: int|
        0 <= i < r.archives@.len() && 0 <= k < r.archives@[i].articles@.len() implies {
            let a = #[trigger] r.archives@[i].articles@[k];
            &&& articles.contains(a)
            &&& is_listed(a, is_production)
            &&& a.date.year == r.archives@[i].year
        } by {
        let f = listed_in_year(is_production, r.archives@[i].year as int);
        let sel = articles.filter(f);
        let a = r.archives@[i].articles@[k];
        lemma_newest_first_same_articles(sel);
        sel.to_multiset_ensures();
        newest_first(sel).to_multiset_ensures();
        assert(newest_first(sel).contains(a));
        assert(newest_first(sel).to_multiset().count(a) > 0);
        assert(sel.to_multiset().count(a) > 0);
        assert(sel.contains(a));
        let m = choose|m: int| 0 <= m < sel.len() && sel[m] == a;
        articles.lemma_filter_pred(f, m);
        articles.lemma_filter_contains_rev(f, a);
    }
}

/// Law: a homepage built for production lists no draft.
pub proof fn law_no_draft_in_production(r: YearArchives, articles: Seq<Article>)
    requires
        r.archives_of(articles, true),
    ensures
        forall|i: int, k: int|
            0 <= i < r.archives@.len() && 0 <= k < r.archives@[i].articles@.len()
                ==> !(#[trigger] r.archives@[i].articles@[k]).draft,
{
    law_listed_articles_are_archived(r, articles, true);
}

/// `a` is in the archive of its year.
pub open spec fn is_archived(r: YearArchives, a: Article) -> bool {
    exists|i: int|
        0 <= i < r.archives@.len() && (#[trigger] r.archives@[i]).year == a.date.year
            && r.archives@[i].articles@.contains(a)
}

/// Law: a homepage that is not built for production (the one the local
/// server shows) lists every article, drafts included, in the archive of its
/// year.
pub proof fn law_preview_lists_every_article(r: YearArchives, articles: Seq<Article>)
    requires
        r.archives_of(articles, false),
    ensures
        forall|j: int| 0 <= j < articles.len() ==> is_archived(r, #[trigger] articles[j]),
{
    law_listed_articles_are_archived(r, articles, false);
    assert forall|j: int| 0 <= j < articles.len() implies is_archived(r, #[trigger] articles[j]) by {
        assert(is_listed(articles[j], false));
    }
}

/// Law: within an archive a newer article comes before an older one, dates
/// compared as numbers: of two articles of the same month the one with the
/// larger day number comes first, and of two months of the year the later
/// month comes first.
pub proof fn law_archive_newer_day_first(r: YearArchives, articles: Seq<Article>, is_production: bool, k: int, i: int, j: int)
    requires
        r.archives_of(articles, is_production),
        0 <= k < r.archives@.len(),
        0 <= i < j < r.archives@[k].articles@.len(),
    ensures
        ({
            let x = r.archives@[k].articles@[i].date;
            let y = r.archives@[k].articles@[j].date;
            ||| x.year > y.year
            ||| x.year == y.year && x.month > y.month
            ||| x.year == y.year && x.month == y.month && x.day >= y.day
        }),
{
    law_archive_is_sorted_selection(r, articles, is_production, k, r.archives@[k].articles@[i].date);
    let s = r.archives@[k].articles@;
    assert(not_older(s[i], s[j]));
}

} // verus!
