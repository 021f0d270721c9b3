//! Article records as the content pipeline supplies them, and the building of
//! the node registry from them: an author node in the middle, one node per
//! article shown on the home page, a spring from the author to each of them,
//! and one edge per link between shown articles.

use vstd::prelude::*;
use crate::registry::{Node, NodeRegistry};
use crate::types::{ContainerBound, NodeContent, NodeId, Position};

verus! {

/// Front-matter data of one article.
#[derive(Debug)]
pub struct ArticleMetadata {
    pub title: String,
    pub home_display: bool,
    pub category: Option<String>,
    pub importance: u8,
    pub related_articles: Vec<String>,
    pub tags: Vec<String>,
    pub created_at: Option<String>,
    pub updated_at: Option<String>,
    /// Set on the article that describes the site's author.
    pub author_image: Option<String>,
}

/// The importance an article has when its front matter names none.
pub fn default_importance() -> (r: u8)
    ensures
        r == 3,
{
    3
}

impl Default for ArticleMetadata {
    fn default() -> (r: ArticleMetadata)
        ensures
            r.title@ == "Untitled"@,
            !r.home_display,
            r.category is None,
            r.importance == 3,
            r.related_articles@.len() == 0,
            r.tags@.len() == 0,
            r.created_at is None,
            r.updated_at is None,
            r.author_image is None,
    {
        ArticleMetadata {
            title: "Untitled".to_owned(),
            home_display: false,
            category: None,
            importance: default_importance(),
            related_articles: Vec::new(),
            tags: Vec::new(),
            created_at: None,
            updated_at: None,
            author_image: None,
        }
    }
}

/// How a link was written in the markdown.
#[derive(Clone, Copy, Debug, PartialEq, Eq, Structural)]
pub enum LinkType {
    /// `[[article-name]]`
    WikiLink,
    /// `[text](slug)`
    MarkdownLink,
}

/// A link found in an article's markdown.
#[derive(Debug)]
pub struct ExtractedLink {
    pub target_slug: String,
    pub link_type: LinkType,
    pub context: String,
    pub position: usize,
    pub original_text: String,
}

/// One article after processing.
#[derive(Debug)]
pub struct ProcessedArticle {
    pub slug: String,
    pub title: String,
    pub content: String,
    pub metadata: ArticleMetadata,
    pub file_path: String,
    pub outbound_links: Vec<ExtractedLink>,
    pub inbound_count: usize,
    pub processed_at: String,
}

/// Every processed article.
#[derive(Debug)]
pub struct ArticlesData {
    pub articles: Vec<ProcessedArticle>,
    pub generated_at: String,
    pub total_count: usize,
    pub home_articles: Vec<String>,
}

/// The index of the first article among the first `n` that carries an
/// author image.
pub open spec fn first_author_article(arts: Seq<ProcessedArticle>, n: int) -> Option<int>
    decreases n,
{
    if n <= 0 {
        None
    } else {
        match first_author_article(arts, n - 1) {
            Some(i) => Some(i),
            None => if arts[n - 1].metadata.author_image is Some {
                Some(n - 1)
            } else {
                None
            },
        }
    }
}

proof fn lemma_first_author_article_stable(arts: Seq<ProcessedArticle>, n: int, m: int)
    requires
        0 <= n <= m,
        first_author_article(arts, n) is Some,
    ensures
        first_author_article(arts, m) == first_author_article(arts, n),
    decreases m - n,
{
    if m > n {
        lemma_first_author_article_stable(arts, n, m - 1);
    }
}

proof fn lemma_first_author_article_found(arts: Seq<ProcessedArticle>, n: int)
    ensures
        match first_author_article(arts, n) {
            Some(i) => 0 <= i < n && arts[i].metadata.author_image is Some,
            None => true,
        },
    decreases n,
{
    if n > 0 {
        lemma_first_author_article_found(arts, n - 1);
    }
}

/// The article that describes the author: the first one with an author
/// image, if any.
pub fn find_author_article(data: &ArticlesData) -> (r: Option<usize>)
    ensures
        match r {
            Some(i) => i < data.articles@.len() && first_author_article(data.articles@, data.articles@.len() as int) == Some(i as int),
            None => first_author_article(data.articles@, data.articles@.len() as int) is None,
        },
{
    let mut i: usize = 0;
    while i < data.articles.len()
        invariant
            i <= data.articles@.len(),
            first_author_article(data.articles@, i as int) is None,
        decreases data.articles@.len() - i,
    {
        if data.articles[i].metadata.author_image.is_some() {
            proof {
                lemma_first_author_article_stable(data.articles@, i as int + 1, data.articles@.len() as int);
            }
            return Some(i);
        }
        i = i + 1;
    }
    None
}

/// Radius of the author node when its article has an image.
pub const AUTHOR_RADIUS: i32 = 60;

/// Radius of the stand-in author node when no article has an image.
pub const FALLBACK_AUTHOR_RADIUS: i32 = 40;

/// Radius of an article node.
pub const ARTICLE_RADIUS: i32 = 30;

/// Importance of the author node.
pub const AUTHOR_IMPORTANCE: u8 = 5;

/// How many of the articles are shown on the home page.
pub open spec fn home_count(arts: Seq<ProcessedArticle>) -> nat
    decreases arts.len(),
{
    if arts.len() == 0 {
        0
    } else {
        home_count(arts.drop_last()) + if arts.last().metadata.home_display {
            1nat
        } else {
            0nat
        }
    }
}

/// Where the `k`-th shown article starts: its ring slot, or the center when
/// the ring is too short.
pub open spec fn ring_position(ring: Seq<Position>, center: Position, k: int) -> Position {
    if 0 <= k < ring.len() {
        ring[k]
    } else {
        center
    }
}

/// The node of the `k`-th shown article (its id is `k + 1`).
pub open spec fn article_entry(a: ProcessedArticle, k: int, center: Position, ring: Seq<Position>) -> Node {
    Node {
        id: NodeId((k + 1) as u32),
        pos: ring_position(ring, center, k),
        radius: ARTICLE_RADIUS,
        content: NodeContent::Text(a.title),
        importance: Some(a.metadata.importance),
        inbound_count: a.inbound_count,
        category: a.metadata.category,
        is_author: false,
    }
}

/// The nodes of the shown articles, in article order.
pub open spec fn article_nodes(arts: Seq<ProcessedArticle>, center: Position, ring: Seq<Position>) -> Seq<Node>
    decreases arts.len(),
{
    if arts.len() == 0 {
        Seq::empty()
    } else {
        let r = article_nodes(arts.drop_last(), center, ring);
        if arts.last().metadata.home_display {
            r.push(article_entry(arts.last(), home_count(arts.drop_last()) as int, center, ring))
        } else {
            r
        }
    }
}

/// The id and slug of each shown article, in article order.
pub open spec fn article_slugs(arts: Seq<ProcessedArticle>) -> Seq<(NodeId, String)>
    decreases arts.len(),
{
    if arts.len() == 0 {
        Seq::empty()
    } else {
        let r = article_slugs(arts.drop_last());
        if arts.last().metadata.home_display {
            r.push((NodeId((home_count(arts.drop_last()) + 1) as u32), arts.last().slug))
        } else {
            r
        }
    }
}

/// The id of the first of the first `n` table rows whose slug is `slug`.
pub open spec fn resolve(table: Seq<(NodeId, String)>, slug: Seq<char>, n: int) -> Option<NodeId>
    decreases n,
{
    if n <= 0 {
        None
    } else {
        match resolve(table, slug, n - 1) {
            Some(id) => Some(id),
            None => if table[n - 1].1@ == slug {
                Some(table[n - 1].0)
            } else {
                None
            },
        }
    }
}

proof fn lemma_resolve_stable(table: Seq<(NodeId, String)>, slug: Seq<char>, n: int, m: int)
    requires
        0 <= n <= m,
        resolve(table, slug, n) is Some,
    ensures
        resolve(table, slug, m) == resolve(table, slug, n),
    decreases m - n,
{
    if m > n {
        lemma_resolve_stable(table, slug, n, m - 1);
    }
}

/// One edge from `from` per link whose target resolves, in link order; the
/// other links are dropped.
pub open spec fn link_edges(table: Seq<(NodeId, String)>, from: NodeId, links: Seq<ExtractedLink>) -> Seq<(NodeId, NodeId)>
    decreases links.len(),
{
    if links.len() == 0 {
        Seq::empty()
    } else {
        let r = link_edges(table, from, links.drop_last());
        match resolve(table, links.last().target_slug@, table.len() as int) {
            Some(to) => r.push((from, to)),
            None => r,
        }
    }
}

/// The link edges of every shown article, in article order.
pub open spec fn all_link_edges(table: Seq<(NodeId, String)>, arts: Seq<ProcessedArticle>) -> Seq<(NodeId, NodeId)>
    decreases arts.len(),
{
    if arts.len() == 0 {
        Seq::empty()
    } else {
        let r = all_link_edges(table, arts.drop_last());
        let a = arts.last();
        if a.metadata.home_display {
            r + link_edges(table, NodeId((home_count(arts.drop_last()) + 1) as u32), a.outbound_links@)
        } else {
            r
        }
    }
}

/// An edge from the author (id 0) to each of the `h` shown articles.
pub open spec fn author_edges(h: int) -> Seq<(NodeId, NodeId)> {
    Seq::new(h as nat, |k: int| (NodeId(0), NodeId((k + 1) as u32)))
}

/// The middle of the container, measured from its own corner.
pub open spec fn home_center(b: ContainerBound) -> Position {
    Position { x: (b.width as int / 2) as i32, y: (b.height as int / 2) as i32 }
}

/// `v / 2`, rounded down.
fn half(v: i32) -> (r: i32)
    ensures
        r == v as int / 2,
{
    if v >= 0 {
        v / 2
    } else {
        -(((-(v as i64)) + 1) / 2) as i32
    }
}

/// The first row of `table` with slug `slug`.
fn resolve_slug(table: &Vec<(NodeId, String)>, slug: &String) -> (r: Option<NodeId>)
    ensures
        r == resolve(table@, slug@, table@.len() as int),
{
    let mut j: usize = 0;
    while j < table.len()
        invariant
            j <= table@.len(),
            resolve(table@, slug@, j as int) is None,
        decreases table@.len() - j,
    {
        if table[j].1 == *slug {
            proof {
                lemma_resolve_stable(table@, slug@, j as int + 1, table@.len() as int);
            }
            return Some(table[j].0);
        }
        j = j + 1;
    }
    None
}

fn clone_category(c: &Option<String>) -> (r: Option<String>)
    ensures
        r == *c,
{
    match c {
        Some(s) => Some(s.clone()),
        None => None,
    }
}

/// Builds the registry the home page starts from. Node 0 is the author,
/// placed at the middle of the container: the first article with an author
/// image (radius 60, slug of that article), or else a stand-in text node
/// "Author" (radius 40, slug "author"). Each article shown on the home page
/// becomes node `k + 1` in article order, at ring slot `k` (computed by the
/// caller) or the middle when there is none. Edges run from the author to
/// every shown article, then from each shown article to every link target
/// that names a node's slug; other links are dropped. The second result
/// maps each node id to its slug.
pub fn create_node_registry_from_articles(
    data: &ArticlesData,
    container_bound: &ContainerBound,
    ring: &Vec<Position>,
) -> (r: (NodeRegistry, Vec<(NodeId, String)>))
    requires
        data.articles@.len() < u32::MAX,
    ensures
        r.0.wf(),
        !r.0.show_connection_lines,
        r.0.nodes@.len() == 1 + home_count(data.articles@),
        r.1@.len() == r.0.nodes@.len(),
        r.0.nodes@.subrange(1, r.0.nodes@.len() as int) == article_nodes(data.articles@, home_center(*container_bound), ring@),
        r.1@.subrange(1, r.1@.len() as int) == article_slugs(data.articles@),
        r.0.nodes@[0].id == NodeId(0),
        r.0.nodes@[0].pos == home_center(*container_bound),
        r.0.nodes@[0].is_author,
        r.0.nodes@[0].importance == Some(AUTHOR_IMPORTANCE),
        r.0.nodes@[0].inbound_count == 0,
        r.0.nodes@[0].category is None,
        r.1@[0].0 == NodeId(0),
        match first_author_article(data.articles@, data.articles@.len() as int) {
            Some(i) => {
                &&& r.0.nodes@[0].radius == AUTHOR_RADIUS
                &&& r.0.nodes@[0].content == (NodeContent::Author {
                    name: data.articles@[i].title,
                    image_url: data.articles@[i].metadata.author_image->0,
                    bio: None,
                })
                &&& r.1@[0].1 == data.articles@[i].slug
            },
            None => {
                &&& r.0.nodes@[0].radius == FALLBACK_AUTHOR_RADIUS
                &&& r.0.nodes@[0].content is Text
                &&& r.0.nodes@[0].content->Text_0@ == "Author"@
                &&& r.1@[0].1@ == "author"@
            },
        },
        r.0.edges@ == author_edges(home_count(data.articles@) as int) + all_link_edges(r.1@, data.articles@),
{
    let arts = &data.articles;
    let center = Position { x: half(container_bound.width), y: half(container_bound.height) };
    let author_art = find_author_article(data);
    let (author_content, author_radius, author_slug) = match author_art {
        Some(i) => {
            let a = &arts[i];
            let image = match &a.metadata.author_image {
                Some(img) => img.clone(),
                None => String::new(),
            };
            (NodeContent::Author { name: a.title.clone(), image_url: image, bio: None }, AUTHOR_RADIUS, a.slug.clone())
        },
        None => (NodeContent::Text("Author".to_owned()), FALLBACK_AUTHOR_RADIUS, "author".to_owned()),
    };
    proof {
        lemma_first_author_article_found(arts@, arts@.len() as int);
    }
    let mut nodes: Vec<Node> = Vec::new();
    nodes.push(
        Node {
            id: NodeId(0),
            pos: center,
            radius: author_radius,
            content: author_content,
            importance: Some(AUTHOR_IMPORTANCE),
            inbound_count: 0,
            category: None,
            is_author: true,
        },
    );
    let mut slugs: Vec<(NodeId, String)> = Vec::new();
    slugs.push((NodeId(0), author_slug));
    let ghost e0 = nodes@[0];
    let ghost s0 = slugs@[0];
    let mut i: usize = 0;
    let mut k: u32 = 0;
    while i < arts.len()
        invariant
            i <= arts@.len(),
            arts@.len() < u32::MAX,
            k <= i,
            k as nat == home_count(arts@.subrange(0, i as int)),
            nodes@.len() == k + 1,
            slugs@.len() == k + 1,
            nodes@ == seq![e0] + article_nodes(arts@.subrange(0, i as int), center, ring@),
            slugs@ == seq![s0] + article_slugs(arts@.subrange(0, i as int)),
            forall|j: int| 0 <= j < nodes@.len() ==> (#[trigger] nodes@[j]).id == NodeId(j as u32),
        decreases arts@.len() - i,
    {
        proof {
            assert(arts@.subrange(0, i as int + 1).drop_last() =~= arts@.subrange(0, i as int));
        }
        let a = &arts[i];
        if a.metadata.home_display {
            let pos = if (k as usize) < ring.len() { ring[k as usize] } else { center };
            let entry = Node {
                id: NodeId(k + 1),
                pos,
                radius: ARTICLE_RADIUS,
                content: NodeContent::Text(a.title.clone()),
                importance: Some(a.metadata.importance),
                inbound_count: a.inbound_count,
                category: clone_category(&a.metadata.category),
                is_author: false,
            };
            proof {
                assert(entry == article_entry(arts@[i as int], k as int, center, ring@));
            }
            let ghost n0 = nodes@;
            nodes.push(entry);
            slugs.push((NodeId(k + 1), a.slug.clone()));
            proof {
                assert(nodes@ =~= seq![e0] + article_nodes(arts@.subrange(0, i as int + 1), center, ring@));
                assert(slugs@ =~= seq![s0] + article_slugs(arts@.subrange(0, i as int + 1)));
                assert(nodes@[n0.len() as int].id == NodeId((k + 1) as u32));
            }
            k = k + 1;
        } else {
            proof {
                assert(nodes@ =~= seq![e0] + article_nodes(arts@.subrange(0, i as int + 1), center, ring@));
                assert(slugs@ =~= seq![s0] + article_slugs(arts@.subrange(0, i as int + 1)));
            }
        }
        i = i + 1;
    }
    proof {
        assert(arts@.subrange(0, i as int) =~= arts@);
    }
    let mut edges: Vec<(NodeId, NodeId)> = Vec::new();
    let mut q: u32 = 0;
    while q < k
        invariant
            q <= k,
            edges@ == author_edges(q as int),
        decreases k - q,
    {
        edges.push((NodeId(0), NodeId(q + 1)));
        proof {
            assert(edges@ =~= author_edges(q as int + 1));
        }
        q = q + 1;
    }
    let ghost table = slugs@;
    let ghost ae = edges@;
    let mut i: usize = 0;
    let mut k2: u32 = 0;
    proof {
        assert(edges@ =~= ae + all_link_edges(table, arts@.subrange(0, 0)));
    }
    while i < arts.len()
        invariant
            i <= arts@.len(),
            arts@.len() < u32::MAX,
            k2 <= i,
            k2 as nat == home_count(arts@.subrange(0, i as int)),
            slugs@ == table,
            edges@ == ae + all_link_edges(table, arts@.subrange(0, i as int)),
        decreases arts@.len() - i,
    {
        proof {
            assert(arts@.subrange(0, i as int + 1).drop_last() =~= arts@.subrange(0, i as int));
        }
        let a = &arts[i];
        if a.metadata.home_display {
            let from = NodeId(k2 + 1);
            let ghost before = edges@;
            let mut l: usize = 0;
            proof {
                assert(edges@ =~= before + link_edges(table, from, a.outbound_links@.subrange(0, 0)));
            }
            while l < a.outbound_links.len()
                invariant
                    l <= a.outbound_links@.len(),
                    slugs@ == table,
                    edges@ == before + link_edges(table, from, a.outbound_links@.subrange(0, l as int)),
                decreases a.outbound_links@.len() - l,
            {
                proof {
                    assert(a.outbound_links@.subrange(0, l as int + 1).drop_last() =~= a.outbound_links@.subrange(0, l as int));
                }
                match resolve_slug(&slugs, &a.outbound_links[l].target_slug) {
                    Some(to) => {
                        edges.push((from, to));
                        proof {
                            assert(edges@ =~= before + link_edges(table, from, a.outbound_links@.subrange(0, l as int + 1)));
                        }
                    },
                    None => {
                        proof {
                            assert(edges@ =~= before + link_edges(table, from, a.outbound_links@.subrange(0, l as int + 1)));
                        }
                    },
                }
                l = l + 1;
            }
            proof {
                assert(a.outbound_links@.subrange(0, l as int) =~= a.outbound_links@);
                assert(edges@ =~= ae + all_link_edges(table, arts@.subrange(0, i as int + 1)));
            }
            k2 = k2 + 1;
        } else {
            proof {
                assert(edges@ =~= ae + all_link_edges(table, arts@.subrange(0, i as int + 1)));
            }
        }
        i = i + 1;
    }
    proof {
        assert(arts@.subrange(0, i as int) =~= arts@);
        assert(nodes@[0] == e0);
        assert(slugs@[0] == s0);
        assert(nodes@.subrange(1, nodes@.len() as int) =~= article_nodes(arts@, center, ring@));
        assert(slugs@.subrange(1, slugs@.len() as int) =~= article_slugs(arts@));
        assert forall|a: int, b: int|
            0 <= a < nodes@.len() && 0 <= b < nodes@.len() && a != b implies #[trigger] nodes@[a].id != #[trigger] nodes@[b].id by {
            assert(nodes@[a].id == NodeId(a as u32));
            assert(nodes@[b].id == NodeId(b as u32));
        }
    }
    (NodeRegistry { nodes, edges, show_connection_lines: false }, slugs)
}

} // verus!
