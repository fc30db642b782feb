use jet::article::{
    article_html_file_name, article_scaffold, has_markdown_extension, new_article_path, published_indices, Article,
    Frontmatter,
};
use jet::blog::Config;
use jet::cli::{local_site_url, Action, Command, CLI};
use jet::commands;
use jet::date::{is_before, parse_date, rfc2822_noon, Date};
use jet::error::JetError;
use jet::renderer::{create_year_archives, Renderer};
use jet::rss::{create_article_items, create_rss_content, feed_dates_valid, make_article_item};
use jet::server::{article_page, find_article};
use jet::site::Site;
use jet::text::{concat_texts, replace_all_exec, same_text};

fn date(year: i32, month: u32, day: u32) -> Date {
    Date { year, month, day }
}

fn article(title: &str, d: Date, slug: &str, draft: bool) -> Article {
    Article {
        title: title.to_string(),
        date: d,
        content: format!("<p>{}</p>", title),
        slug: slug.to_string(),
        draft,
        description: format!("about {}", title),
    }
}

fn titles(list: &[Article]) -> Vec<String> {
    list.iter().map(|a| a.title.clone()).collect()
}

#[test]
fn error_messages() {
    assert_eq!(JetError::OutsideProject.message(), "Error: The current directory is not a Jet project");
    assert_eq!(JetError::TemplateNotFound.message(), "Error: The template files are not found");
    assert_eq!(JetError::IncompleteSiteConfig.message(), "Error: The site config file is incomplete");
    assert_eq!(JetError::FailedToCreateHomepageFile.message(), "Error: Failed to create homepage file");
    assert_eq!(JetError::FailedToCreateArticleFile.message(), "Error: Failed to create article files");
    assert_eq!(JetError::InvalidBaseURL.message(), "Error: The BaseURL is invalid");
}

#[test]
fn parse_date_reads_iso_dates() {
    assert_eq!(parse_date("2024-01-05"), Some(date(2024, 1, 5)));
    assert_eq!(parse_date("2024-02-29"), Some(date(2024, 2, 29)));
    assert_eq!(parse_date("2023-02-29"), None);
    assert_eq!(parse_date("2024-13-01"), None);
    assert_eq!(parse_date("yesterday"), None);
    assert_eq!(parse_date(""), None);
}

#[test]
fn date_order() {
    assert!(is_before(&date(2023, 12, 31), &date(2024, 1, 1)));
    assert!(is_before(&date(2024, 1, 1), &date(2024, 2, 1)));
    assert!(is_before(&date(2024, 2, 1), &date(2024, 2, 2)));
    assert!(!is_before(&date(2024, 2, 2), &date(2024, 2, 2)));
    assert!(!is_before(&date(2025, 1, 1), &date(2024, 12, 31)));
}

#[test]
fn rfc2822_at_noon_utc() {
    assert_eq!(rfc2822_noon(&date(2024, 1, 5)), "Fri, 5 Jan 2024 12:00:00 +0000");
    assert_eq!(rfc2822_noon(&date(2023, 12, 25)), "Mon, 25 Dec 2023 12:00:00 +0000");
}

#[test]
fn replace_every_occurrence() {
    assert_eq!(replace_all_exec("a-b-c", "-", "+"), "a+b+c");
    assert_eq!(replace_all_exec("aaaa", "aa", "b"), "bb");
    assert_eq!(replace_all_exec("aaa", "aa", "b"), "ba");
    assert_eq!(replace_all_exec("no match", "xyz", "!"), "no match");
    assert_eq!(replace_all_exec("", "x", "y"), "");
    assert_eq!(replace_all_exec("{a}{a}", "{a}", "é"), "éé");
    assert_eq!(replace_all_exec("x", "x", "xx"), "xx");
}

#[test]
fn text_helpers() {
    assert!(same_text("héllo", "héllo"));
    assert!(!same_text("hello", "hell"));
    assert!(!same_text("hello", "hellp"));
    assert_eq!(concat_texts("ab", "cd"), "abcd");
}

#[test]
fn article_from_frontmatter() {
    let front = Frontmatter {
        title: "Hello".to_string(),
        date: "2024-03-09".to_string(),
        slug: "hello".to_string(),
        draft: false,
        description: "First post".to_string(),
    };
    let a = Article::from_frontmatter(front, "# Hi\n\nSome <b>bold</b> ~~text~~.").unwrap();
    assert_eq!(a.title, "Hello");
    assert_eq!(a.date, date(2024, 3, 9));
    assert_eq!(a.slug, "hello");
    assert!(!a.draft);
    assert_eq!(a.description, "First post");
    assert_eq!(a.content, "<h1>Hi</h1>\n<p>Some <b>bold</b> <del>text</del>.</p>");
}

#[test]
fn article_with_bad_date() {
    let front = Frontmatter {
        title: "Hello".to_string(),
        date: "9 March 2024".to_string(),
        slug: "hello".to_string(),
        draft: true,
        description: String::new(),
    };
    assert!(Article::from_frontmatter(front, "body").is_none());
}

#[test]
fn markdown_file_names() {
    assert!(has_markdown_extension("post.md"));
    assert!(has_markdown_extension("a.b.md"));
    assert!(!has_markdown_extension(".md"));
    assert!(!has_markdown_extension("md"));
    assert!(!has_markdown_extension("post.mdx"));
    assert!(!has_markdown_extension("post.txt"));
    assert!(!has_markdown_extension("postmd"));
}

#[test]
fn file_names_and_paths() {
    assert_eq!(article_html_file_name("my-post"), "my-post.html");
    assert_eq!(new_article_path("my-post"), "articles/my-post.md");
}

#[test]
fn scaffold_of_new_article() {
    assert_eq!(
        article_scaffold("2024-05-01", "my-post"),
        "---\ntitle: \"\"\ndate: \"2024-05-01\"\nslug: \"my-post\"\ndraft: true\ndescription: \"\"\n---"
    );
    // the slug is put in after the date, so a date that looks like a
    // placeholder is replaced as well
    assert_eq!(
        article_scaffold("{slug}", "s"),
        "---\ntitle: \"\"\ndate: \"s\"\nslug: \"s\"\ndraft: true\ndescription: \"\"\n---"
    );
}

#[test]
fn published_articles_get_pages() {
    let list = vec![
        article("a", date(2024, 1, 1), "a", false),
        article("b", date(2024, 1, 2), "b", true),
        article("c", date(2024, 1, 3), "c", false),
    ];
    assert_eq!(published_indices(&list), vec![0, 2]);
    assert_eq!(published_indices(&vec![]), Vec::<usize>::new());
}

#[test]
fn year_archives_group_and_sort() {
    let list = vec![
        article("old", date(2022, 6, 1), "old", false),
        article("new", date(2024, 3, 1), "new", false),
        article("draft", date(2023, 1, 1), "draft", true),
        article("mid", date(2024, 1, 15), "mid", false),
        article("newest", date(2024, 12, 31), "newest", false),
    ];
    let archives = create_year_archives(list, true);
    assert_eq!(archives.years(), vec![2024, 2022]);
    assert_eq!(titles(&archives.archives[0].articles), vec!["newest", "new", "mid"]);
    assert_eq!(titles(&archives.archives[1].articles), vec!["old"]);
}

#[test]
fn year_archives_keep_drafts_when_previewing() {
    let list = vec![
        article("old", date(2022, 6, 1), "old", false),
        article("draft", date(2023, 1, 1), "draft", true),
    ];
    let archives = create_year_archives(list, false);
    assert_eq!(archives.years(), vec![2023, 2022]);
    assert_eq!(titles(&archives.archives[0].articles), vec!["draft"]);
}

#[test]
fn year_archives_are_stable_for_one_day() {
    let list = vec![
        article("first", date(2024, 5, 5), "first", false),
        article("other", date(2024, 5, 6), "other", false),
        article("second", date(2024, 5, 5), "second", false),
        article("third", date(2024, 5, 5), "third", false),
    ];
    let archives = create_year_archives(list, true);
    assert_eq!(titles(&archives.archives[0].articles), vec!["other", "first", "second", "third"]);
}

#[test]
fn year_archives_of_nothing() {
    let archives = create_year_archives(vec![article("d", date(2024, 1, 1), "d", true)], true);
    assert!(archives.archives.is_empty());
    assert!(archives.years().is_empty());
}

#[test]
fn renderer_checks_templates() {
    assert!(Renderer::try_new("{% if %}".to_string(), "ok".to_string()).is_none());
    assert!(Renderer::try_new("ok".to_string(), "{{ x ".to_string()).is_none());
    let r = Renderer::try_new("{{ title }}|{{ content }}|{{ description }}".to_string(), "home".to_string()).unwrap();
    assert_eq!(r.article_template(), "{{ title }}|{{ content }}|{{ description }}");
    assert_eq!(r.homepage_template(), "home");
}

#[test]
fn render_article_page() {
    let r = Renderer::try_new("<h1>{{ title }}</h1>{{ content }}<i>{{ description }}</i>".to_string(), "home".to_string())
        .unwrap();
    let a = article("Hello", date(2024, 1, 1), "hello", false);
    assert_eq!(r.render_article(&a).unwrap(), "<h1>Hello</h1><p>Hello</p><i>about Hello</i>");
    let with_include = Renderer::try_new("[{% include \"homepage\" %}]".to_string(), "home".to_string()).unwrap();
    assert_eq!(with_include.render_article(&a).unwrap(), "[home]");
}

#[test]
fn render_failure_is_reported() {
    let r = Renderer::try_new("{% include \"missing\" %}".to_string(), "home".to_string()).unwrap();
    let a = article("Hello", date(2024, 1, 1), "hello", false);
    assert!(r.render_article(&a).is_none());
}

fn config(base_url: &str) -> Config {
    Config { title: "Blog".to_string(), base_url: base_url.to_string(), description: "A blog".to_string() }
}

#[test]
fn site_checks_base_url() {
    let site = Site::new(config("https://example.com/blog/"), vec![]).ok().unwrap();
    assert_eq!(site.config.base_url, "https://example.com/blog/");
    assert_eq!(site.config.title, "Blog");
    let site = Site::new(config("https://Example.com"), vec![]).ok().unwrap();
    assert_eq!(site.config.base_url, "https://example.com/");
    assert!(matches!(Site::new(config("not a url"), vec![]), Err(JetError::InvalidBaseURL)));
}

#[test]
fn feed_items_of_published_articles() {
    let list = vec![
        article("a", date(2024, 1, 5), "a", false),
        article("b", date(2024, 1, 6), "b", true),
        article("c", date(2023, 12, 25), "c", false),
    ];
    let items = create_article_items("https://example.com/blog/", &list).unwrap();
    assert_eq!(items.len(), 2);
    assert_eq!(items[0].title, "a");
    assert_eq!(items[0].link, "https://example.com/posts/a");
    assert_eq!(items[0].description, "about a");
    assert_eq!(items[0].content, "<p>a</p>");
    assert_eq!(items[0].pub_date, "Fri, 5 Jan 2024 12:00:00 +0000");
    assert_eq!(items[1].title, "c");
    assert_eq!(items[1].link, "https://example.com/posts/c");
}

#[test]
fn feed_item_without_link() {
    let a = article("a", date(2024, 1, 5), "a", false);
    assert!(make_article_item("mailto:someone@example.com", &a).is_none());
    assert!(create_article_items("mailto:someone@example.com", &vec![a]).is_none());
}

#[test]
fn rss_channel() {
    let list = vec![article("a", date(2024, 1, 5), "a", false), article("b", date(2024, 1, 6), "b", true)];
    let site = Site::new(config("https://example.com/"), list).ok().unwrap();
    let xml = create_rss_content(&site).unwrap();
    assert!(xml.contains("<title>Blog</title>"));
    assert!(xml.contains("<link>https://example.com/rss.xml</link>"));
    assert!(xml.contains("<description>A blog</description>"));
    assert!(xml.contains("<link>https://example.com/posts/a</link>"));
    assert!(xml.contains("<pubDate>Fri, 5 Jan 2024 12:00:00 +0000</pubDate>"));
    assert!(!xml.contains("posts/b"));
}

#[test]
fn server_finds_articles_by_slug() {
    let list = vec![
        article("a", date(2024, 1, 5), "same", false),
        article("b", date(2024, 1, 6), "same", false),
        article("c", date(2024, 1, 7), "other", false),
    ];
    assert_eq!(find_article(&list, "same"), Some(0));
    assert_eq!(find_article(&list, "other"), Some(2));
    assert_eq!(find_article(&list, "none"), None);
    let r = Renderer::try_new("{{ title }}".to_string(), "home".to_string()).unwrap();
    assert_eq!(article_page(&r, &list, "same").unwrap(), "a");
    assert_eq!(article_page(&r, &list, "none").unwrap(), "Not Found");
}

#[test]
fn local_server_url() {
    assert_eq!(local_site_url("https://example.com/blog/").unwrap(), "http://localhost:3000/blog/");
    assert_eq!(local_site_url("https://example.com").unwrap(), "http://localhost:3000/");
    assert!(local_site_url("not a url").is_none());
}

fn cli(command: Command) -> CLI {
    CLI { command }
}

#[test]
fn cli_outside_project_fails() {
    for c in [Command::Serve, Command::Build { output_dir: None }, Command::Create { article_slug: "x".to_string() }] {
        match cli(c).on_root_checked(false) {
            Action::Finish { result: Err(JetError::OutsideProject), message: None } => {},
            _ => panic!("expected OutsideProject"),
        }
    }
}

#[test]
fn cli_create_article() {
    let c = cli(Command::Create { article_slug: "post".to_string() });
    assert!(matches!(c.on_root_checked(true), Action::GetToday));
    match c.on_today("2024-05-01") {
        Action::WriteArticle { path, content } => {
            assert_eq!(path, "articles/post.md");
            assert_eq!(content, article_scaffold("2024-05-01", "post"));
        },
        _ => panic!("expected WriteArticle"),
    }
    match c.on_article_written(true) {
        Action::Finish { result: Ok(()), message: Some(m) } => assert_eq!(m, "Create article: articles/post.md"),
        _ => panic!("expected success"),
    }
    assert!(matches!(
        c.on_article_written(false),
        Action::Finish { result: Err(JetError::FailedToCreateArticleFile), message: None }
    ));
}

#[test]
fn cli_build_and_serve() {
    let build = cli(Command::Build { output_dir: None });
    assert!(matches!(build.on_root_checked(true), Action::LoadSite));
    assert!(matches!(
        build.on_site_loaded(Err(JetError::InvalidBaseURL)),
        Action::Finish { result: Err(JetError::InvalidBaseURL), message: None }
    ));
    assert!(matches!(build.on_site_loaded(Ok(())), Action::ReadHomepageTemplate));
    assert!(matches!(
        build.on_homepage_template(false),
        Action::Finish { result: Err(JetError::TemplateNotFound), message: None }
    ));
    assert!(matches!(build.on_homepage_template(true), Action::ReadArticleTemplate));
    assert!(matches!(
        build.on_article_template(false),
        Action::Finish { result: Err(JetError::TemplateNotFound), message: None }
    ));
    match build.on_article_template(true) {
        Action::BuildSite { output_dir } => assert_eq!(output_dir, "public/"),
        _ => panic!("expected BuildSite"),
    }
    let build_to = cli(Command::Build { output_dir: Some("out".to_string()) });
    match build_to.on_article_template(true) {
        Action::BuildSite { output_dir } => assert_eq!(output_dir, "out"),
        _ => panic!("expected BuildSite"),
    }
    assert!(matches!(cli(Command::Serve).on_article_template(true), Action::Serve));
}

#[test]
fn commands_run_decides_the_task() {
    let c = commands::CLI { command: commands::Command::Serve };
    assert!(matches!(c.run(false), Err(JetError::OutsideProject)));
    assert!(matches!(c.run(true), Ok(commands::Task::Serve)));
    let b = commands::CLI { command: commands::Command::Build { output_dir: None } };
    match b.run(true) {
        Ok(commands::Task::BuildSite { output_dir }) => assert_eq!(output_dir, "public/"),
        _ => panic!("expected BuildSite"),
    }
    let b = commands::CLI { command: commands::Command::Build { output_dir: Some("dist/".to_string()) } };
    match b.run(true) {
        Ok(commands::Task::BuildSite { output_dir }) => assert_eq!(output_dir, "dist/"),
        _ => panic!("expected BuildSite"),
    }
    let n = commands::CLI { command: commands::Command::Create { article_slug: "p".to_string() } };
    match n.run(true) {
        Ok(commands::Task::CreateArticle { slug }) => assert_eq!(slug, "p"),
        _ => panic!("expected CreateArticle"),
    }
}

#[test]
fn date_validity() {
    assert!(date(2024, 2, 29).is_valid());
    assert!(!date(2023, 2, 29).is_valid());
    assert!(date(2000, 2, 29).is_valid());
    assert!(!date(1900, 2, 29).is_valid());
    assert!(date(-4, 2, 29).is_valid());
    assert!(!date(2024, 4, 31).is_valid());
    assert!(!date(2024, 0, 1).is_valid());
    assert!(!date(2024, 1, 0).is_valid());
    assert!(!date(300000, 1, 1).is_valid());
}

#[test]
fn feed_date_check() {
    assert!(feed_dates_valid(&vec![article("a", date(2024, 1, 5), "a", false)]));
    assert!(!feed_dates_valid(&vec![article("a", date(10000, 1, 5), "a", false)]));
    assert!(!feed_dates_valid(&vec![article("a", date(2023, 2, 29), "a", false)]));
    assert!(feed_dates_valid(&vec![article("a", date(10000, 1, 5), "a", true)]));
}

#[test]
fn production_equals_preview_of_published() {
    let list = vec![
        article("a", date(2022, 6, 1), "a", false),
        article("b", date(2024, 1, 1), "b", true),
        article("c", date(2024, 3, 1), "c", false),
        article("d", date(2023, 3, 1), "d", true),
    ];
    let published: Vec<Article> = list.iter().filter(|a| !a.draft).cloned().collect();
    let production = create_year_archives(list, true);
    let preview = create_year_archives(published, false);
    assert_eq!(production.years(), preview.years());
    for (x, y) in production.archives.iter().zip(preview.archives.iter()) {
        assert_eq!(titles(&x.articles), titles(&y.articles));
    }
}

#[test]
fn input_order_does_not_matter_for_distinct_days() {
    let list = vec![
        article("a", date(2022, 6, 1), "a", false),
        article("b", date(2024, 1, 1), "b", false),
        article("c", date(2024, 3, 1), "c", false),
    ];
    let mut perm = list.clone();
    perm.reverse();
    let x = create_year_archives(list, true);
    let y = create_year_archives(perm, true);
    assert_eq!(x.years(), y.years());
    for (p, q) in x.archives.iter().zip(y.archives.iter()) {
        assert_eq!(titles(&p.articles), titles(&q.articles));
    }
}
