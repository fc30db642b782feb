use vstd::prelude::*;
use crate::article::{Article, Articles, published, is_published_fn};
use crate::date::{rfc2822_noon, spec_rfc2822_noon, valid_ymd};
use crate::site::{Site, spec_url_join, url_join};
use crate::text::concat_texts;

verus! {

/// An item of the RSS feed.
pub struct RssItem {
    pub title: String,
    pub link: String,
    pub description: String,
    pub content: String,
    pub pub_date: String,
}

/// The texts of an item: title, link, description, content, date.
pub type ItemTexts = (Seq<char>, Seq<char>, Seq<char>, Seq<char>, Seq<char>);

pub open spec fn item_texts(item: RssItem) -> ItemTexts {
    (item.title@, item.link@, item.description@, item.content@, item.pub_date@)
}

pub open spec fn item_texts_fn() -> spec_fn(RssItem) -> ItemTexts {
    |i: RssItem| item_texts(i)
}

/// The XML that the `rss` crate writes for a channel with this title, link
/// and description and these items (each with title, link, description,
/// content and publication date set, and nothing else).
pub uninterp spec fn spec_rss_xml(
    title: Seq<char>,
    link: Seq<char>,
    description: Seq<char>,
    items: Seq<ItemTexts>,
) -> Seq<char>;

/// Builds an `rss::Channel` of the given title, link, description and
/// items, all other fields left at their defaults, and writes it with
/// `to_string` (the crate's `Display`).  Claimed: the XML is the one named
/// by `spec_rss_xml`.
#[verifier::external_body]
fn rss_channel_xml(title: &str, link: &str, description: &str, items: &Vec<RssItem>) -> (r: String)
    ensures
        r@ == spec_rss_xml(title@, link@, description@, items@.map_values(item_texts_fn())),
{
    let items = items.iter().map(|i| rss::Item {
        title: Some(i.title.clone()), link: Some(i.link.clone()), description: Some(i.description.clone()),
        content: Some(i.content.clone()), pub_date: Some(i.pub_date.clone()), ..Default::default()
    }).collect();
    let channel = rss::Channel {
        title: title.to_string(), link: link.to_string(), description: description.to_string(), items,
        ..Default::default()
    };
    channel.to_string()
}

/// The path of an article's page on the site.
pub open spec fn post_path(slug: Seq<char>) -> Seq<char> {
    "/posts/"@ + slug
}

/// The link of an article: its page path joined to the base URL.
pub open spec fn article_link(base_url: Seq<char>, a: Article) -> Option<Seq<char>> {
    spec_url_join(base_url, post_path(a.slug@))
}

/// The texts of the feed item of an article whose link can be made.
pub open spec fn article_item_texts(base_url: Seq<char>, a: Article) -> ItemTexts {
    (
        a.title@,
        article_link(base_url, a).unwrap(),
        a.description@,
        a.content@,
        spec_rfc2822_noon(a.date.year as int, a.date.month as int, a.date.day as int),
    )
}

pub open spec fn article_item_texts_fn(base_url: Seq<char>) -> spec_fn(Article) -> ItemTexts {
    |a: Article| article_item_texts(base_url, a)
}

/// The feed can show the date of an article.
pub open spec fn feed_date_ok(a: Article) -> bool {
    a.date.wf() && 0 <= a.date.year <= 9999
}

/// Every published article has a date that the feed can show.
pub open spec fn feed_dates_ok(articles: Seq<Article>) -> bool {
    forall|i: int| 0 <= i < articles.len() && !(#[trigger] articles[i]).draft ==> feed_date_ok(articles[i])
}

/// Whether the feed can show the date of every published article.
pub fn feed_dates_valid(articles: &Articles) -> (r: bool)
    ensures
        r == feed_dates_ok(articles@),
        r <==> forall|i: int|
            0 <= i < articles@.len() && !(#[trigger] articles@[i]).draft ==> {
                &&& valid_ymd(articles@[i].date.year as int, articles@[i].date.month as int, articles@[i].date.day as int)
                &&& 0 <= articles@[i].date.year <= 9999
            },
{
    let mut i: usize = 0;
    while i < articles.len()
        invariant
            i <= articles@.len(),
            forall|k: int| 0 <= k < i && !(#[trigger] articles@[k]).draft ==> feed_date_ok(articles@[k]),
        decreases articles@.len() - i,
    {
        let a = &articles[i];
        if !a.draft && !(a.date.is_valid() && 0 <= a.date.year && a.date.year <= 9999) {
            assert(!feed_date_ok(articles@[i as int]));
            return false;
        }
        i = i + 1;
    }
    true
}

/// Every published article has a link.
pub open spec fn feed_links_ok(base_url: Seq<char>, articles: Seq<Article>) -> bool {
    forall|i: int| 0 <= i < articles.len() && !(#[trigger] articles[i]).draft ==> article_link(base_url, articles[i]) is Some
}

/// The feed item of an article.  `None` where its link cannot be made.
pub fn make_article_item(base_url: &str, article: &Article) -> (r: Option<RssItem>)
    requires
        feed_date_ok(*article),
    ensures
        r is Some <==> article_link(base_url@, *article) is Some,
        r matches Some(item) ==> item_texts(item) == article_item_texts(base_url@, *article),
        r is Some <==> spec_url_join(base_url@, "/posts/"@ + article.slug@) is Some,
        r matches Some(item) ==> {
            &&& spec_url_join(base_url@, "/posts/"@ + article.slug@) == Some(item.link@)
            &&& item.title == article.title
            &&& item.description == article.description
            &&& item.content == article.content
            &&& item.pub_date@ == spec_rfc2822_noon(
                article.date.year as int,
                article.date.month as int,
                article.date.day as int,
            )
        },
{
    let pub_date = rfc2822_noon(&article.date);
    let path = concat_texts("/posts/", article.slug.as_str());
    assert(path@ =~= post_path(article.slug@));
    match url_join(base_url, path.as_str()) {
        None => None,
        Some(link) => Some(RssItem {
            title: article.title.clone(),
            link,
            description: article.description.clone(),
            content: article.content.clone(),
            pub_date,
        }),
    }
}

/// The feed items of the published articles, in their order.  `None` where
/// the link of one of them cannot be made.
pub fn create_article_items(base_url: &str, articles: &Articles) -> (r: Option<Vec<RssItem>>)
    requires
        feed_dates_ok(articles@),
    ensures
        r is Some <==> feed_links_ok(base_url@, articles@),
        r matches Some(items) ==> items@.map_values(item_texts_fn())
            == published(articles@).map_values(article_item_texts_fn(base_url@)),
{
    let ghost f = is_published_fn();
    let ghost g = article_item_texts_fn(base_url@);
    let mut items: Vec<RssItem> = Vec::new();
    let mut k: usize = 0;
    while k < articles.len()
        invariant
            k <= articles@.len(),
            feed_dates_ok(articles@),
            feed_links_ok(base_url@, articles@.take(k as int)),
            f == is_published_fn(),
            g == article_item_texts_fn(base_url@),
            items@.map_values(item_texts_fn()) == articles@.take(k as int).filter(f).map_values(g),
        decreases articles@.len() - k,
    {
        let ghost before = articles@.take(k as int);
        proof {
            assert(articles@.take(k + 1) =~= before.push(articles@[k as int]));
            before.lemma_filter_push(articles@[k as int], f);
        }
        if !articles[k].draft {
            match make_article_item(base_url, &articles[k]) {
                None => {
                    assert(!feed_links_ok(base_url@, articles@)) by {
                        assert(!articles@[k as int].draft);
                    }
                    return None;
                },
                Some(item) => {
                    let ghost old_items = items@;
                    items.push(item);
                    proof {
                        assert(items@.map_values(item_texts_fn())
                            =~= old_items.map_values(item_texts_fn()).push(item_texts(item)));
                        assert(before.filter(f).push(articles@[k as int]).map_values(g)
                            =~= before.filter(f).map_values(g).push(g(articles@[k as int])));
                    }
                },
            }
        }
        proof {
            assert forall|i: int| 0 <= i < k + 1 && !(#[trigger] articles@.take(k + 1)[i]).draft
                implies article_link(base_url@, articles@.take(k + 1)[i]) is Some by {
                if i < k {
                    assert(articles@.take(k + 1)[i] == before[i]);
                }
            }
        }
        k = k + 1;
    }
    proof {
        assert(articles@.take(k as int) =~= articles@);
    }
    Some(items)
}

/// The RSS feed of a site: its title and description, the link of the feed
/// itself (`rss.xml` after the base URL), and an item for each published
/// article.  `None` where the link of an article cannot be made.
pub fn create_rss_content(site: &Site) -> (r: Option<String>)
    requires
        feed_dates_ok(site.articles@),
    ensures
        r is Some <==> feed_links_ok(site.config.base_url@, site.articles@),
        r matches Some(xml) ==> xml@ == spec_rss_xml(
            site.config.title@,
            site.config.base_url@ + "rss.xml"@,
            site.config.description@,
            published(site.articles@).map_values(article_item_texts_fn(site.config.base_url@)),
        ),
{
    match create_article_items(site.config.base_url.as_str(), &site.articles) {
        None => None,
        Some(items) => {
            let link = concat_texts(site.config.base_url.as_str(), "rss.xml");
            Some(rss_channel_xml(site.config.title.as_str(), link.as_str(), site.config.description.as_str(), &items))
        },
    }
}

/// Law: the link of an article's feed item is its page: the base URL joined
/// with `/posts/` and the article's slug.  It depends on nothing else of the
/// article: two articles with the same slug get the same link, whatever
/// their titles, dates or contents.
pub proof fn law_feed_link_is_post_page(base_url: Seq<char>, a: Article, b: Article)
    ensures
        article_link(base_url, a) == spec_url_join(base_url, "/posts/"@ + a.slug@),
        a.slug == b.slug ==> article_link(base_url, a) == article_link(base_url, b),
        a.slug == b.slug && article_link(base_url, a) is Some ==> article_item_texts(base_url, a).1
            == article_item_texts(base_url, b).1,
{
}

/// Law: the feed can show the date of an article exactly when the date is a
/// day of the calendar with a year from 0 to 9999, whatever its month and
/// day; and a list passes the feed date check exactly when each published
/// article does, drafts not counting.
pub proof fn law_feed_dates(a: Article, articles: Seq<Article>)
    ensures
        feed_date_ok(a) <==> valid_ymd(a.date.year as int, a.date.month as int, a.date.day as int) && 0
            <= a.date.year <= 9999,
        feed_dates_ok(articles) <==> forall|i: int|
            0 <= i < articles.len() && !(#[trigger] articles[i]).draft ==> {
                &&& valid_ymd(articles[i].date.year as int, articles[i].date.month as int, articles[i].date.day as int)
                &&& 0 <= articles[i].date.year <= 9999
            },
{
}

} // verus!
