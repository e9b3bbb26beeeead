use moxide::builder::{build_plan, parse_sources, plan_build, select_entries, BuildReport, FoundFile, SourceText};
use moxide::error::Error;
use moxide::manifest::{default_description, default_theme, Manifest};
use moxide::project::{MoxideBuilder, MoxideProj};
use moxide::render::RenderRegistry;

fn source(path: &str, renderer: &str, day: u32) -> SourceText {
    SourceText {
        path: path.to_owned(),
        text: format!(
            "+++\ntitle = \"{path}\"\ndate = \"2024-01-{day:02}T00:00:00Z\"\nrenderer = \"{renderer}\"\n+++\nintro\n<!-- more -->\nrest"
        ),
    }
}

fn three_sources() -> Vec<SourceText> {
    vec![
        source("src/a/index.md", "page", 1),
        source("src/b/index.md", "nope", 2),
        source("src/c/index.md", "page", 3),
    ]
}

#[test]
fn end_to_end_two_pages_one_unknown() {
    let reg = RenderRegistry::new();
    let plan = plan_build(&reg, parse_sources("out", three_sources()));
    assert_eq!(plan.artifacts.len(), 2);
    assert_eq!(plan.report.succeeded.len(), 2);
    assert_eq!(plan.report.failed.len(), 1);
    assert_eq!(plan.report.failed[0].source, "src/b/index.md");
    assert!(matches!(&plan.report.failed[0].error, Error::RenderNotFound(n) if n == "nope"));
    assert!(plan.external.is_empty());
    assert!(!plan.report.is_failure());
}

#[test]
fn build_twice_gives_the_same_result() {
    let reg = RenderRegistry::new();
    let run = || {
        let plan = plan_build(&reg, parse_sources("out", three_sources()));
        let mut paths: Vec<String> = plan.artifacts.iter().map(|a| a.path.clone()).collect();
        paths.sort();
        let mut ok = plan.report.succeeded.clone();
        ok.sort();
        let failed: Vec<String> = plan.report.failed.iter().map(|f| f.source.clone()).collect();
        (paths, ok, failed)
    };
    assert_eq!(run(), run());
}

#[test]
fn parse_failures_are_reported_not_dropped() {
    let reg = RenderRegistry::new();
    let sources = vec![
        SourceText { path: "x/index.md".to_owned(), text: "no front matter".to_owned() },
        source("y/index.md", "page", 4),
    ];
    let plan = plan_build(&reg, parse_sources("out", sources));
    assert_eq!(plan.report.succeeded, vec!["y/index.md".to_owned()]);
    assert_eq!(plan.report.failed.len(), 1);
    assert!(matches!(plan.report.failed[0].error, Error::InvalidDataBlock));
}

#[test]
fn same_date_collides() {
    let reg = RenderRegistry::new();
    let sources = vec![source("a/index.md", "page", 5), source("b/index.md", "page", 5)];
    let plan = plan_build(&reg, parse_sources("out", sources));
    assert_eq!(plan.artifacts.len(), 1);
    assert_eq!(plan.report.failed.len(), 1);
    assert!(matches!(plan.report.failed[0].error, Error::OutputCollision(_)));
}

#[test]
fn all_failed_is_a_failed_build() {
    let reg = RenderRegistry::new();
    let sources = vec![source("a/index.md", "bundle", 6)];
    let plan = plan_build(&reg, parse_sources("out", sources));
    assert!(plan.report.is_failure());
    assert!(!BuildReport::new().is_failure());
    let mut r = BuildReport::new();
    r.record("s".to_owned(), Ok(()));
    r.record("t".to_owned(), Err(Error::Unknown));
    assert_eq!(r.succeeded, vec!["s".to_owned()]);
    assert_eq!(r.failed[0].source, "t");
}

#[test]
fn selects_index_files_within_depth() {
    let f = |path: &str, name: &str, depth: usize, is_file: bool| FoundFile {
        path: path.to_owned(),
        name: name.to_owned(),
        depth,
        is_file,
    };
    let found = vec![
        f("src", "src", 0, false),
        f("src/a/index.md", "index.md", 2, true),
        f("src/b.md", "b.md", 1, true),
        f("src/index.md", "index.md", 1, false),
        f("src/c/d/index.md", "index.md", 3, true),
        f("src/e/index.md", "index.md", 2, true),
    ];
    assert_eq!(
        select_entries(&found),
        vec!["src/a/index.md".to_owned(), "src/e/index.md".to_owned()]
    );
}

#[test]
fn manifest_defaults_and_errors() {
    let m = Manifest::try_from_text("site = \"S\"").unwrap();
    assert_eq!(m.site, "S");
    assert_eq!(m.description, default_description());
    assert_eq!(m.theme, default_theme());
    assert!(m.renders.is_empty());
    let m = Manifest::try_from_text("site = \"S\"\ntheme = \"t\"\nrenders = [\"b\", \"a\"]").unwrap();
    assert_eq!(m.renders, vec!["b".to_owned(), "a".to_owned()]);
    assert!(matches!(
        Manifest::try_from_text("description = \"d\""),
        Err(Error::MetadataDecode(f)) if f == "site"
    ));
    assert!(matches!(Manifest::try_from_text("site = "), Err(Error::TomlDe(_))));
    let text = m.to_toml().unwrap();
    let again = Manifest::try_from_text(&text).unwrap();
    assert_eq!(again.site, "S");
    assert_eq!(again.theme, "t");
    assert_eq!(again.renders, vec!["b".to_owned(), "a".to_owned()]);
}

#[test]
fn project_paths() {
    let mut p = MoxideProj::try_new("site/manifest.toml", "site = \"S\"").unwrap();
    assert_eq!(p.base, "site");
    assert_eq!(p.src(), "site/src");
    assert_eq!(p.path_src(), "site/src");
    assert_eq!(p.output(), "site/output");
    assert_eq!(p.path_output(), "site/output");
    p.set_output("elsewhere".to_owned());
    assert_eq!(p.path_output(), "elsewhere");
    let q = MoxideProj::try_new("manifest.toml", "site = \"S\"").unwrap();
    assert_eq!(q.src(), "src");
    let mut b = MoxideBuilder::new(q.manifest);
    assert_eq!(b.output, "./output");
    b.output("o".to_owned());
    assert_eq!(b.output, "o");
}

#[test]
fn build_plan_fixes_contents_and_errors() {
    let reg = RenderRegistry::new();
    let mut sources = three_sources();
    sources.push(SourceText { path: "d/index.md".to_owned(), text: "+++\ntitle = \n+++".to_owned() });
    sources.push(SourceText { path: "e/index.md".to_owned(), text: "+++\ndate = \"2024-01-09T00:00:00Z\"\n+++".to_owned() });
    let plan = build_plan(&reg, "out", sources);
    assert_eq!(plan.artifacts.len(), 2);
    assert!(plan.artifacts.iter().all(|a| a.content == "\nintro\n<!-- more -->\nrest"));
    assert!(plan
        .artifacts
        .iter()
        .any(|a| a.path == "out/contents/2024-01-01%2000%3A00%3A00%20%2B00%3A00/index.html"));
    let kind = |src: &str| {
        plan.report.failed.iter().find(|f| f.source == src).map(|f| format!("{:?}", f.error))
    };
    assert!(kind("d/index.md").unwrap().starts_with("TomlDe"));
    assert_eq!(kind("e/index.md").unwrap(), "MetadataDecode(\"title\")");
    assert_eq!(kind("src/b/index.md").unwrap(), "RenderNotFound(\"nope\")");
}
