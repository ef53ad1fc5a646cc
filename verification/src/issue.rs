use vstd::prelude::*;
use vstd::seq_lib::lemma_multiset_commutative;
use vstd::seq_lib::group_to_multiset_ensures;
use vstd::multiset::Multiset;
use crate::meta::{Meta, MetaModel};

verus! {

/// One article of an issue: its title, publish date (as a day number),
/// feature and publish flags, and the path of its body content.
pub struct Article {
    pub title: String,
    pub pub_date: u64,
    pub featured: bool,
    pub publish: bool,
    pub path: String,
}

impl Article {
    /// Whether the article is visible to rendering and listing.
    pub fn need_publish(&self) -> (r: bool)
        ensures
            r == self.publish,
    {
        self.publish
    }
}

/// The visible articles: those whose publish flag is set, in order.
pub open spec fn published(s: Seq<Article>) -> Seq<Article>
    decreases s.len(),
{
    if s.len() == 0 {
        Seq::empty()
    } else if s[0].publish {
        seq![s[0]] + published(s.subrange(1, s.len() as int))
    } else {
        published(s.subrange(1, s.len() as int))
    }
}

/// The featured visible articles, in order.
pub open spec fn featured(s: Seq<Article>) -> Seq<Article>
    decreases s.len(),
{
    if s.len() == 0 {
        Seq::empty()
    } else if s[0].featured && s[0].publish {
        seq![s[0]] + featured(s.subrange(1, s.len() as int))
    } else {
        featured(s.subrange(1, s.len() as int))
    }
}

/// Publish dates never decrease along the sequence.
pub open spec fn sorted_by_date(s: Seq<Article>) -> bool {
    forall|i: int, j: int| 0 <= i < j < s.len() ==> s[i].pub_date <= s[j].pub_date
}

pub open spec fn opt_article(o: Option<&Article>) -> Option<Article> {
    match o {
        Some(a) => Some(*a),
        None => None,
    }
}

/// The article before position `current` of the visible list, if any.
pub open spec fn sibling_prev(pubs: Seq<Article>, current: int) -> Option<Article> {
    if 1 <= current && current - 1 < pubs.len() {
        Some(pubs[current - 1])
    } else {
        None
    }
}

/// The article after position `current` of the visible list, if any.
pub open spec fn sibling_next(pubs: Seq<Article>, current: int) -> Option<Article> {
    if 0 <= current && current + 1 < pubs.len() {
        Some(pubs[current + 1])
    } else {
        None
    }
}

/// The per-article bindings of one render job: the article itself, its
/// one-based position and its neighbours in the visible list.
pub struct RenderJob<'a> {
    pub article: &'a Article,
    pub number: usize,
    pub prev: Option<&'a Article>,
    pub next: Option<&'a Article>,
}

/// One issue: its slug, number, title, optional intro and cover, its source
/// directory name, and all its articles (the unpublished ones included).
pub struct Issue {
    pub slug: String,
    pub number: u32,
    pub title: String,
    pub intro: Option<String>,
    pub cover: Option<String>,
    pub dir: String,
    pub articles: Vec<Article>,
}

fn insert_pos(out: &Vec<Article>, date: u64) -> (p: usize)
    requires
        sorted_by_date(out@),
    ensures
        p <= out.len(),
        forall|k: int| 0 <= k < p ==> out@[k].pub_date <= date,
        forall|k: int| p <= k < out@.len() ==> out@[k].pub_date > date,
{
    let mut p: usize = 0;
    while p < out.len() && out[p].pub_date <= date
        invariant
            p <= out.len(),
            forall|k: int| 0 <= k < p ==> out@[k].pub_date <= date,
        decreases out.len() - p,
    {
        p += 1;
    }
    proof {
        assert forall|k: int| p <= k < out@.len() implies out@[k].pub_date > date by {
            assert(out@[p as int].pub_date > date);
            if k > p {
                assert(out@[p as int].pub_date <= out@[k].pub_date);
            }
        }
    }
    p
}

/// Sort the articles by publish date, ascending; the collection keeps exactly
/// the same articles.
fn sort_articles(v: &mut Vec<Article>)
    ensures
        sorted_by_date(final(v)@),
        final(v)@.to_multiset() == old(v)@.to_multiset(),
{
    broadcast use group_to_multiset_ensures;

    let mut out: Vec<Article> = Vec::new();
    while v.len() > 0
        invariant
            sorted_by_date(out@),
            out@.to_multiset().add(v@.to_multiset()) == old(v)@.to_multiset(),
        decreases v.len(),
    {
        let ghost pre = v@;
        let a = v.remove(0);
        let p = insert_pos(&out, a.pub_date);
        let ghost out_pre = out@;
        out.insert(p, a);
        proof {
            broadcast use group_to_multiset_ensures;

            assert(out@ =~= out_pre.take(p as int).push(a) + out_pre.skip(p as int));
            lemma_multiset_commutative(out_pre.take(p as int).push(a), out_pre.skip(p as int));
            lemma_multiset_commutative(out_pre.take(p as int), out_pre.skip(p as int));
            assert(out_pre.take(p as int).push(a).to_multiset() =~= out_pre.take(
                p as int,
            ).to_multiset().insert(a));
            assert(out_pre =~= out_pre.take(p as int) + out_pre.skip(p as int));
            assert(out@.to_multiset() =~= out_pre.to_multiset().insert(a));
            assert(v@ =~= pre.remove(0));
            assert(pre.remove(0).to_multiset() =~= pre.to_multiset().remove(pre[0]));
            assert(v@.to_multiset() =~= pre.to_multiset().remove(a));
            assert(pre[0] == a);
            assert(pre.contains(a));
            assert(pre.to_multiset().count(a) > 0);
            assert(out@.to_multiset().add(v@.to_multiset()) =~= old(v)@.to_multiset());
            assert forall|i: int, j: int| 0 <= i < j < out@.len() implies out@[i].pub_date
                <= out@[j].pub_date by {
                assert(out@[p as int] == a);
            }
        }
    }
    *v = out;
}

impl Issue {
    /// A fresh issue from its parts; the articles may come in any order.
    pub fn new(
        slug: String,
        number: u32,
        title: String,
        cover: Option<String>,
        dir: String,
        articles: Vec<Article>,
    ) -> (r: Issue)
        ensures
            r.slug == slug,
            r.number == number,
            r.title == title,
            r.cover == cover,
            r.dir == dir,
            r.intro is None,
            r.spec_articles() == articles@,
    {
        Issue { slug, number, title, intro: None, cover, dir, articles }
    }

    /// The raw article collection, unpublished articles included.
    pub open spec fn spec_articles(&self) -> Seq<Article> {
        self.articles@
    }

    /// Get all articles that need to be published, in order.
    pub fn articles(&self) -> (r: Vec<&Article>)
        ensures
            r@.map_values(|a: &Article| *a) == published(self.spec_articles()),
    {
        let r = published_from(&self.articles, 0);
        proof {
            assert(self.articles@.skip(0) =~= self.articles@);
        }
        r
    }

    /// Get the featured articles among the visible ones, in order.
    pub fn featured_articles(&self) -> (r: Vec<&Article>)
        ensures
            r@.map_values(|a: &Article| *a) == featured(self.spec_articles()),
    {
        let r = featured_from(&self.articles, 0);
        proof {
            assert(self.articles@.skip(0) =~= self.articles@);
        }
        r
    }

    /// The neighbours of the visible article at position `current`: the first
    /// has no previous article, the last has no next one.
    pub fn sibling_articles(&self, current: usize) -> (r: (Option<&Article>, Option<&Article>))
        ensures
            opt_article(r.0) == sibling_prev(published(self.spec_articles()), current as int),
            opt_article(r.1) == sibling_next(published(self.spec_articles()), current as int),
    {
        let pubs = self.articles();
        let ghost ps = published(self.spec_articles());
        proof {
            assert forall|k: int| 0 <= k < pubs@.len() implies *pubs@[k] == ps[k] by {
                assert(pubs@.map_values(|a: &Article| *a)[k] == *pubs@[k]);
            }
        }
        let prev = if current >= 1 && current - 1 < pubs.len() {
            Some(pubs[current - 1])
        } else {
            None
        };
        let next = if current < pubs.len() && current + 1 < pubs.len() {
            Some(pubs[current + 1])
        } else {
            None
        };
        (prev, next)
    }

    /// The description of this issue's page. What a description is for given
    /// intro text is the markdown collaborator's short-description extraction,
    /// which the caller computes and hands in; an issue without an intro has
    /// an empty description, whatever is handed in.
    pub fn description(&self, intro_extract: &str) -> (r: String)
        ensures
            r@ == if self.intro is Some {
                intro_extract@
            } else {
                Seq::<char>::empty()
            },
    {
        match &self.intro {
            Some(_) => intro_extract.to_owned(),
            None => String::new(),
        }
    }

    /// Complete this issue's own normalization before any article is parsed:
    /// the slug falls back to the directory name when unset, the intro read
    /// from the issue's directory is taken over, and the articles are sorted
    /// by publish date, ascending.
    pub fn parse(&mut self, intro: Option<String>)
        ensures
            final(self).slug@ == if old(self).slug@.len() == 0 {
                old(self).dir@
            } else {
                old(self).slug@
            },
            final(self).intro == intro,
            final(self).number == old(self).number,
            final(self).title == old(self).title,
            final(self).cover == old(self).cover,
            final(self).dir == old(self).dir,
            sorted_by_date(final(self).articles@),
            final(self).articles@.to_multiset() == old(self).articles@.to_multiset(),
    {
        if self.slug.as_str().unicode_len() == 0 {
            self.slug = self.dir.clone();
        }
        self.intro = intro;
        sort_articles(&mut self.articles);
    }

    /// The render jobs of this issue: one per visible article, in order, each
    /// carrying the article, its one-based number and its sibling pair. No
    /// visible article is left out, so a caller that completes every job has
    /// rendered them all.
    pub fn render_plan(&self) -> (jobs: Vec<RenderJob>)
        ensures
            jobs@.len() == published(self.spec_articles()).len(),
            forall|i: int|
                0 <= i < jobs@.len() ==> {
                    &&& *(#[trigger] jobs@[i]).article == published(self.spec_articles())[i]
                    &&& jobs@[i].number == i + 1
                    &&& opt_article(jobs@[i].prev) == sibling_prev(
                        published(self.spec_articles()),
                        i,
                    )
                    &&& opt_article(jobs@[i].next) == sibling_next(
                        published(self.spec_articles()),
                        i,
                    )
                },
    {
        let pubs = self.articles();
        let ghost ps = published(self.spec_articles());
        proof {
            assert forall|k: int| 0 <= k < pubs@.len() implies *pubs@[k] == ps[k] by {
                assert(pubs@.map_values(|a: &Article| *a)[k] == *pubs@[k]);
            }
        }
        let mut jobs: Vec<RenderJob> = Vec::new();
        let mut i: usize = 0;
        while i < pubs.len()
            invariant
                i <= pubs.len(),
                pubs@.len() == ps.len(),
                forall|k: int| 0 <= k < pubs@.len() ==> *pubs@[k] == ps[k],
                jobs@.len() == i,
                forall|k: int|
                    0 <= k < i ==> {
                        &&& *(#[trigger] jobs@[k]).article == ps[k]
                        &&& jobs@[k].number == k + 1
                        &&& opt_article(jobs@[k].prev) == sibling_prev(ps, k)
                        &&& opt_article(jobs@[k].next) == sibling_next(ps, k)
                    },
            decreases pubs.len() - i,
        {
            let prev = if i >= 1 {
                Some(pubs[i - 1])
            } else {
                None
            };
            let next = if i + 1 < pubs.len() {
                Some(pubs[i + 1])
            } else {
                None
            };
            jobs.push(RenderJob { article: pubs[i], number: i + 1, prev, next });
            i += 1;
        }
        jobs
    }

    /// The page metadata of this issue's own page: its title, the description
    /// drawn from the intro (handed in by the caller, see `description`), its
    /// slug as the page url, its cover as the page image.
    pub fn page_meta(&self, intro_extract: &str) -> (m: Meta)
        ensures
            m@ == (MetaModel {
                title: self.title@,
                description: if self.intro is Some {
                    intro_extract@
                } else {
                    Seq::<char>::empty()
                },
                url: Some(self.slug@),
                image: match self.cover {
                    Some(c) => Some(c@),
                    None => None,
                },
            }),
    {
        let m = Meta {
            title: self.title.clone(),
            description: self.description(intro_extract),
            url: Some(self.slug.clone()),
            image: match &self.cover {
                Some(c) => Some(c.clone()),
                None => None,
            },
        };
        proof {
            assert(m@ =~= (MetaModel {
                title: self.title@,
                description: if self.intro is Some {
                    intro_extract@
                } else {
                    Seq::<char>::empty()
                },
                url: Some(self.slug@),
                image: match self.cover {
                    Some(c) => Some(c@),
                    None => None,
                },
            }));
        }
        m
    }
}

fn featured_from<'a>(articles: &'a Vec<Article>, i: usize) -> (r: Vec<&'a Article>)
    requires
        i <= articles.len(),
    ensures
        r@.map_values(|a: &Article| *a) == featured(articles@.skip(i as int)),
    decreases articles.len() - i,
{
    if i == articles.len() {
        let r: Vec<&'a Article> = Vec::new();
        proof {
            assert(articles@.skip(i as int) =~= Seq::<Article>::empty());
            assert(r@.map_values(|a: &Article| *a) =~= featured(articles@.skip(i as int)));
        }
        r
    } else {
        let mut rest = featured_from(articles, i + 1);
        proof {
            assert(articles@.skip(i as int).subrange(1, articles@.skip(i as int).len() as int)
                =~= articles@.skip(i as int + 1));
            assert(articles@.skip(i as int)[0] == articles@[i as int]);
        }
        if articles[i].featured && articles[i].need_publish() {
            rest.insert(0, &articles[i]);
        }
        proof {
            assert(rest@.map_values(|a: &Article| *a) =~= featured(articles@.skip(i as int)));
        }
        rest
    }
}

fn published_from<'a>(articles: &'a Vec<Article>, i: usize) -> (r: Vec<&'a Article>)
    requires
        i <= articles.len(),
    ensures
        r@.map_values(|a: &Article| *a) == published(articles@.skip(i as int)),
    decreases articles.len() - i,
{
    if i == articles.len() {
        let r: Vec<&'a Article> = Vec::new();
        proof {
            assert(articles@.skip(i as int) =~= Seq::<Article>::empty());
            assert(r@.map_values(|a: &Article| *a) =~= published(articles@.skip(i as int)));
        }
        r
    } else {
        let mut rest = published_from(articles, i + 1);
        proof {
            assert(articles@.skip(i as int).subrange(1, articles@.skip(i as int).len() as int)
                =~= articles@.skip(i as int + 1));
            assert(articles@.skip(i as int)[0] == articles@[i as int]);
        }
        if articles[i].need_publish() {
            rest.insert(0, &articles[i]);
        }
        proof {
            assert(rest@.map_values(|a: &Article| *a) =~= published(articles@.skip(i as int)));
        }
        rest
    }
}

} // verus!
