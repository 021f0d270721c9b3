use khimoo_portfolio::articles::{
    create_node_registry_from_articles, default_importance, find_author_article, ArticleMetadata, ArticlesData,
    ExtractedLink, LinkType, ProcessedArticle,
};
use khimoo_portfolio::types::{ContainerBound, NodeContent, NodeId, Position};

fn link(target: &str) -> ExtractedLink {
    ExtractedLink {
        target_slug: target.to_string(),
        link_type: LinkType::MarkdownLink,
        context: String::new(),
        position: 0,
        original_text: String::new(),
    }
}

fn article(slug: &str, home: bool, links: Vec<ExtractedLink>) -> ProcessedArticle {
    let mut metadata = ArticleMetadata::default();
    metadata.title = slug.to_uppercase();
    metadata.home_display = home;
    ProcessedArticle {
        slug: slug.to_string(),
        title: slug.to_uppercase(),
        content: String::new(),
        metadata,
        file_path: String::new(),
        outbound_links: links,
        inbound_count: 2,
        processed_at: String::new(),
    }
}

fn data(articles: Vec<ProcessedArticle>) -> ArticlesData {
    let n = articles.len();
    ArticlesData { articles, generated_at: String::new(), total_count: n, home_articles: Vec::new() }
}

fn bound() -> ContainerBound {
    ContainerBound { x: 5, y: 5, width: 801, height: 600, top: 5, left: 5, bottom: 605, right: 806 }
}

#[test]
fn metadata_defaults() {
    let m = ArticleMetadata::default();
    assert_eq!(m.title, "Untitled");
    assert!(!m.home_display);
    assert_eq!(m.importance, 3);
    assert_eq!(default_importance(), 3);
    assert!(m.category.is_none() && m.author_image.is_none());
    assert!(m.tags.is_empty() && m.related_articles.is_empty());
}

#[test]
fn fallback_author_and_shown_articles() {
    let d = data(vec![
        article("a", true, vec![link("b"), link("missing"), link("hidden"), link("author")]),
        article("hidden", false, vec![link("a")]),
        article("b", true, vec![link("a")]),
    ]);
    assert_eq!(find_author_article(&d), None);
    let ring = vec![Position::new(100, 100)];
    let (reg, slugs) = create_node_registry_from_articles(&d, &bound(), &ring);
    assert_eq!(reg.nodes.len(), 3);
    assert_eq!(reg.nodes[0].id, NodeId(0));
    assert_eq!(reg.nodes[0].pos, Position::new(400, 300));
    assert_eq!(reg.nodes[0].radius, 40);
    assert_eq!(reg.nodes[0].content, NodeContent::Text("Author".to_string()));
    assert_eq!(reg.nodes[0].importance, Some(5));
    assert!(reg.nodes[0].is_author);
    assert_eq!(reg.nodes[1].id, NodeId(1));
    assert_eq!(reg.nodes[1].pos, Position::new(100, 100));
    assert_eq!(reg.nodes[1].content, NodeContent::Text("A".to_string()));
    assert_eq!(reg.nodes[1].importance, Some(3));
    assert_eq!(reg.nodes[1].inbound_count, 2);
    assert_eq!(reg.nodes[2].id, NodeId(2));
    assert_eq!(reg.nodes[2].pos, Position::new(400, 300));
    assert_eq!(reg.get_author_node_id(), Some(NodeId(0)));
    assert_eq!(
        slugs,
        vec![(NodeId(0), "author".to_string()), (NodeId(1), "a".to_string()), (NodeId(2), "b".to_string())]
    );
    assert_eq!(
        reg.edges,
        vec![
            (NodeId(0), NodeId(1)),
            (NodeId(0), NodeId(2)),
            (NodeId(1), NodeId(2)),
            (NodeId(1), NodeId(0)),
            (NodeId(2), NodeId(1)),
        ]
    );
}

#[test]
fn author_article_becomes_author_node() {
    let mut me = article("me", false, vec![]);
    me.metadata.author_image = Some("me.png".to_string());
    let mut other = article("x", true, vec![link("me")]);
    other.metadata.category = Some("rust".to_string());
    other.metadata.importance = 4;
    let d = data(vec![other, me]);
    assert_eq!(find_author_article(&d), Some(1));
    let (reg, slugs) = create_node_registry_from_articles(&d, &bound(), &vec![]);
    assert_eq!(reg.nodes[0].radius, 60);
    assert_eq!(
        reg.nodes[0].content,
        NodeContent::Author { name: "ME".to_string(), image_url: "me.png".to_string(), bio: None }
    );
    assert_eq!(reg.nodes[1].category, Some("rust".to_string()));
    assert_eq!(reg.nodes[1].importance, Some(4));
    assert_eq!(slugs[0], (NodeId(0), "me".to_string()));
    assert_eq!(reg.edges, vec![(NodeId(0), NodeId(1)), (NodeId(1), NodeId(0))]);
}

#[test]
fn no_articles_leaves_only_the_author() {
    let d = data(vec![]);
    let (reg, slugs) = create_node_registry_from_articles(&d, &bound(), &vec![]);
    assert_eq!(reg.nodes.len(), 1);
    assert!(reg.edges.is_empty());
    assert_eq!(slugs.len(), 1);
}
