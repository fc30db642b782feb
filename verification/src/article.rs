use vstd::prelude::*;
use crate::date::{Date, parse_date, spec_parse_date};
use crate::text::{concat_texts, lemma_replace_leading, lemma_replace_skips_braceless, replace_all, replace_all_exec};

verus! {

/// An article of the blog, with its body already turned into HTML.
#[derive(Clone)]
pub struct Article {
    pub title: String,
    pub date: Date,
    pub content: String,
    pub slug: String,
    pub draft: bool,
    pub description: String,
}

pub type Articles = Vec<Article>;

/// The fields that the front matter of an article file holds.
pub struct Frontmatter {
    pub title: String,
    pub date: String,
    pub slug: String,
    pub draft: bool,
    pub description: String,
}

/// The HTML that the `markdown` crate makes of a body, with GitHub flavoured
/// markdown and raw HTML let through.
pub uninterp spec fn spec_markdown_to_html(body: Seq<char>) -> Seq<char>;

/// Calls `markdown::to_html_with_options` with the GFM options and
/// `allow_dangerous_html` set.  Claimed: the HTML is the one named by
/// `spec_markdown_to_html`.  The crate documents that the call never fails
/// when MDX is off, as it is here, so the `Result` is unwrapped.
#[verifier::external_body]
fn markdown_gfm_to_html(body: &str) -> (html: String)
    ensures
        html@ == spec_markdown_to_html(body@),
{
    let compile = markdown::CompileOptions {
        allow_dangerous_html: true,
        ..markdown::CompileOptions::default()
    };
    let options = markdown::Options { compile, ..markdown::Options::gfm() };
    markdown::to_html_with_options(body, &options).unwrap()
}

impl Article {
    /// The article that a file with this front matter and this markdown body
    /// describes.  `None` exactly when the date is not a `YYYY-MM-DD` date.
    pub fn from_frontmatter(front: Frontmatter, body: &str) -> (r: Option<Article>)
        ensures
            r is None <==> spec_parse_date(front.date@) is None,
            r matches Some(a) ==> {
                &&& a.title == front.title
                &&& spec_parse_date(front.date@) == Some(a.date.ymd())
                &&& a.date.wf()
                &&& a.content@ == spec_markdown_to_html(body@)
                &&& a.slug == front.slug
                &&& a.draft == front.draft
                &&& a.description == front.description
            },
    {
        match parse_date(front.date.as_str()) {
            None => None,
            Some(date) => {
                let content = markdown_gfm_to_html(body);
                Some(Article {
                    title: front.title,
                    date,
                    content,
                    slug: front.slug,
                    draft: front.draft,
                    description: front.description,
                })
            },
        }
    }
}

/// A file name whose extension is `md`: it ends in `.md` and something
/// stands before that dot (`.md` alone is a hidden file without extension).
pub open spec fn is_markdown_file_name(name: Seq<char>) -> bool {
    name.len() > 3 && name.skip(name.len() - 3) == seq!['.', 'm', 'd']
}

/// Whether a file of the articles directory is an article, by its name.
pub fn has_markdown_extension(file_name: &str) -> (r: bool)
    ensures
        r == is_markdown_file_name(file_name@),
        r <==> file_name@.len() > 3 && file_name@[file_name@.len() - 3] == '.' && file_name@[file_name@.len() - 2]
            == 'm' && file_name@[file_name@.len() - 1] == 'd',
{
    let n = file_name.unicode_len();
    if n <= 3 {
        return false;
    }
    let r = file_name.get_char(n - 3) == '.' && file_name.get_char(n - 2) == 'm'
        && file_name.get_char(n - 1) == 'd';
    assert(r == (file_name@.skip(n - 3) =~= seq!['.', 'm', 'd']));
    r
}

/// Law: a file name is an article's exactly when something stands before a
/// final `.md`, however long the name is: any non-empty stem followed by
/// `.md` is accepted (so the file that `new_article_path` names is read
/// back), anything put in front of an accepted name keeps it accepted, and a
/// name that does not end in `.md`, or is `.md` alone, is refused.
pub proof fn law_markdown_file_names(stem: Seq<char>, prefix: Seq<char>, name: Seq<char>)
    ensures
        stem.len() > 0 ==> is_markdown_file_name(stem + ".md"@),
        is_markdown_file_name(name) ==> is_markdown_file_name(prefix + name),
        name.len() < 3 || name.skip(name.len() - 3) != ".md"@ ==> !is_markdown_file_name(name),
        !is_markdown_file_name(".md"@),
{
    reveal_strlit(".md");
    if stem.len() > 0 {
        let n = stem + ".md"@;
        assert(n.skip(n.len() - 3) =~= seq!['.', 'm', 'd']);
    }
    if is_markdown_file_name(name) {
        let n = prefix + name;
        assert(n.skip(n.len() - 3) =~= name.skip(name.len() - 3));
    }
    if name.len() >= 3 && name.skip(name.len() - 3) != ".md"@ {
        assert(".md"@ =~= seq!['.', 'm', 'd']);
    }
}

/// The name of the HTML file of an article: its slug and `.html`.
pub fn article_html_file_name(slug: &str) -> (r: String)
    ensures
        r@ == slug@ + ".html"@,
{
    let mut name = String::from_str(slug);
    name.append(".html");
    name
}

/// Whether an article is published: drafts are not.
pub open spec fn is_published(a: Article) -> bool {
    !a.draft
}

/// The articles that are published, in their order.
pub open spec fn published(articles: Seq<Article>) -> Seq<Article> {
    articles.filter(is_published_fn())
}

pub open spec fn is_published_fn() -> spec_fn(Article) -> bool {
    |a: Article| is_published(a)
}

/// The positions of the published articles, in order: the articles that
/// get a page when the site is built.
pub fn published_indices(articles: &Articles) -> (r: Vec<usize>)
    ensures
        forall|k: int, m: int| 0 <= k < m < r@.len() ==> r@[k] < r@[m],
        forall|k: int| 0 <= k < r@.len() ==> r@[k] < articles@.len() && !articles@[r@[k] as int].draft,
        forall|j: int| 0 <= j < articles@.len() && !(#[trigger] articles@[j]).draft ==> r@.contains(j as usize),
{
    let mut r: Vec<usize> = Vec::new();
    let mut i: usize = 0;
    while i < articles.len()
        invariant
            i <= articles@.len(),
            forall|k: int, m: int| 0 <= k < m < r@.len() ==> r@[k] < r@[m],
            forall|k: int| 0 <= k < r@.len() ==> r@[k] < i && !articles@[r@[k] as int].draft,
            forall|j: int| 0 <= j < i && !(#[trigger] articles@[j]).draft ==> r@.contains(j as usize),
        decreases articles@.len() - i,
    {
        if !articles[i].draft {
            let ghost old_r = r@;
            r.push(i);
            proof {
                assert forall|j: int| 0 <= j < i + 1 && !(#[trigger] articles@[j]).draft implies r@.contains(j as usize) by {
                    if j < i {
                        let k = choose|k: int| 0 <= k < old_r.len() && old_r[k] == j as usize;
                        assert(r@[k] == j as usize);
                    } else {
                        assert(r@[old_r.len() as int] == j as usize);
                    }
                }
            }
        }
        i = i + 1;
    }
    r
}

/// The front matter of a new article: a draft of the given date and slug
/// with an empty title and description.
pub const DEFAULT_ARTICLE_TEMPLATE: &'static str =
    "---\ntitle: \"\"\ndate: \"{date}\"\nslug: \"{slug}\"\ndraft: true\ndescription: \"\"\n---";

/// The text of a new article: the template with `{date}` replaced by the
/// date, then `{slug}` replaced by the slug.
pub open spec fn scaffold_text(date: Seq<char>, slug: Seq<char>) -> Seq<char> {
    replace_all(replace_all(DEFAULT_ARTICLE_TEMPLATE@, "{date}"@, date), "{slug}"@, slug)
}

/// Law: the scaffold of a new article is a draft front matter with an empty
/// title and description, the date and the slug, whatever the slug holds, as
/// long as the date holds no opening brace.
pub proof fn law_scaffold_layout(date: Seq<char>, slug: Seq<char>)
    requires
        !date.contains('{'),
    ensures
        scaffold_text(date, slug) == "---\ntitle: \"\"\ndate: \""@ + date + "\"\nslug: \""@ + slug
            + "\"\ndraft: true\ndescription: \"\"\n---"@,
{
    let a1 = "---\ntitle: \"\"\ndate: \""@;
    let a2 = "\"\nslug: \""@;
    let a3 = "\"\ndraft: true\ndescription: \"\"\n---"@;
    let pd = "{date}"@;
    let ps = "{slug}"@;
    reveal_strlit("---\ntitle: \"\"\ndate: \"{date}\"\nslug: \"{slug}\"\ndraft: true\ndescription: \"\"\n---");
    reveal_strlit("---\ntitle: \"\"\ndate: \"");
    reveal_strlit("\"\nslug: \"");
    reveal_strlit("\"\ndraft: true\ndescription: \"\"\n---");
    reveal_strlit("{date}");
    reveal_strlit("{slug}");
    assert(DEFAULT_ARTICLE_TEMPLATE@ =~= a1 + (pd + (a2 + (ps + a3))));
    assert(!a1.contains('{')) by {
        assert forall|k: int| 0 <= k < a1.len() implies a1[k] != '{' by {}
    }
    assert(!a2.contains('{')) by {
        assert forall|k: int| 0 <= k < a2.len() implies a2[k] != '{' by {}
    }
    assert(!a3.contains('{')) by {
        assert forall|k: int| 0 <= k < a3.len() implies a3[k] != '{' by {}
    }
    let slug_tail = "slug}"@;
    reveal_strlit("slug}");
    assert(!slug_tail.contains('{')) by {
        assert forall|k: int| 0 <= k < slug_tail.len() implies slug_tail[k] != '{' by {}
    }
    // first pass: only `{date}` is replaced
    lemma_replace_skips_braceless(a1, pd + (a2 + (ps + a3)), pd, date);
    lemma_replace_leading(a2 + (ps + a3), pd, date);
    lemma_replace_skips_braceless(a2, ps + a3, pd, date);
    let t = ps + a3;
    assert(t.take(pd.len() as int) != pd) by {
        assert(t.take(pd.len() as int)[1] == 's');
    }
    assert(t.skip(1) =~= slug_tail + a3);
    lemma_replace_skips_braceless(slug_tail + a3, Seq::empty(), pd, date);
    assert(slug_tail + a3 + Seq::<char>::empty() =~= slug_tail + a3);
    assert(replace_all(Seq::<char>::empty(), pd, date) == Seq::<char>::empty());
    assert(replace_all(t, pd, date) =~= t);
    let first = a1 + (date + (a2 + (ps + a3)));
    assert(replace_all(DEFAULT_ARTICLE_TEMPLATE@, pd, date) =~= first);
    // second pass: only `{slug}` is replaced
    lemma_replace_skips_braceless(a1, date + (a2 + (ps + a3)), ps, slug);
    lemma_replace_skips_braceless(date, a2 + (ps + a3), ps, slug);
    lemma_replace_skips_braceless(a2, ps + a3, ps, slug);
    lemma_replace_leading(a3, ps, slug);
    lemma_replace_skips_braceless(a3, Seq::empty(), ps, slug);
    assert(a3 + Seq::<char>::empty() =~= a3);
    assert(replace_all(Seq::<char>::empty(), ps, slug) == Seq::<char>::empty());
    assert(scaffold_text(date, slug) =~= a1 + date + a2 + slug + a3);
}

/// The text of a new article of the given date and slug.
pub fn article_scaffold(date: &str, slug: &str) -> (r: String)
    ensures
        r@ == scaffold_text(date@, slug@),
{
    proof {
        reveal_strlit("{date}");
        reveal_strlit("{slug}");
    }
    let with_date = replace_all_exec(DEFAULT_ARTICLE_TEMPLATE, "{date}", date);
    replace_all_exec(with_date.as_str(), "{slug}", slug)
}

/// The path of the markdown file of a new article: `articles/<slug>.md`.
pub fn new_article_path(slug: &str) -> (r: String)
    ensures
        r@ == "articles/"@ + slug@ + ".md"@,
{
    let start = concat_texts("articles/", slug);
    concat_texts(start.as_str(), ".md")
}

} // verus!
