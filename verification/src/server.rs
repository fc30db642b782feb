use vstd::prelude::*;
use crate::article::Articles;
use crate::renderer::{Renderer, spec_render_article};
use crate::text::same_text;

verus! {

/// The index of the first article with the given slug, if any.
pub fn find_article(articles: &Articles, slug: &str) -> (r: Option<usize>)
    ensures
        match r {
            Some(i) => {
                &&& i < articles@.len()
                &&& articles@[i as int].slug@ == slug@
                &&& forall|j: int| 0 <= j < i ==> (#[trigger] articles@[j]).slug@ != slug@
            },
            None => forall|j: int| 0 <= j < articles@.len() ==> (#[trigger] articles@[j]).slug@ != slug@,
        },
{
    let mut i: usize = 0;
    while i < articles.len()
        invariant
            i <= articles@.len(),
            forall|j: int| 0 <= j < i ==> (#[trigger] articles@[j]).slug@ != slug@,
        decreases articles@.len() - i,
    {
        if same_text(articles[i].slug.as_str(), slug) {
            return Some(i);
        }
        i = i + 1;
    }
    None
}

/// The page that the server sends for `/posts/<slug>`: the first article
/// with that slug rendered, or `Not Found` where there is none.  `None`
/// where minijinja fails to render the article.
pub fn article_page(renderer: &Renderer, articles: &Articles, slug: &str) -> (r: Option<String>)
    ensures
        (forall|j: int| 0 <= j < articles@.len() ==> (#[trigger] articles@[j]).slug@ != slug@)
            ==> (r matches Some(page) && page@ == "Not Found"@),
        forall|i: int|
            0 <= i < articles@.len() && (#[trigger] articles@[i]).slug@ == slug@
                && (forall|j: int| 0 <= j < i ==> (#[trigger] articles@[j]).slug@ != slug@) ==> {
                let a = articles@[i];
                let expected = spec_render_article(
                    renderer.homepage_source(),
                    renderer.article_source(),
                    a.title@,
                    a.content@,
                    a.description@,
                );
                match r {
                    Some(page) => expected == Some(page@),
                    None => expected is None,
                }
            },
{
    match find_article(articles, slug) {
        None => Some(String::from_str("Not Found")),
        Some(i) => {
            proof {
                assert forall|k: int|
                    0 <= k < articles@.len() && (#[trigger] articles@[k]).slug@ == slug@
                        && (forall|j: int| 0 <= j < k ==> (#[trigger] articles@[j]).slug@ != slug@) implies k == i by {
                    if k < i {
                    } else if k > i {
                        assert(articles@[i as int].slug@ == slug@);
                    }
                }
            }
            renderer.render_article(&articles[i])
        },
    }
}

} // verus!
