use moxide::entry::EntryContext;
use moxide::error::Error;
use moxide::render::{RenderRegistry, RenderTask, Renderer};

fn context(renderer: &str) -> EntryContext {
    let text = format!(
        "+++\ntitle = \"T\"\ndate = \"2024-01-02T03:04:05Z\"\nrenderer = \"{renderer}\"\n+++\nbody"
    );
    EntryContext::try_new("src/a/index.md".to_owned(), "out", &text).unwrap()
}

#[test]
fn builtins_present_before_registration() {
    let reg = RenderRegistry::new();
    assert_eq!(reg.fetch("page"), Some(Renderer::Page));
    assert_eq!(reg.fetch("bundle"), Some(Renderer::Bundle));
    assert_eq!(reg.fetch("unknown"), None);
    assert_eq!(reg.fetch("Page"), None);
}

#[test]
fn register_then_fetch() {
    let mut reg = RenderRegistry::new();
    reg.register("x", Renderer::External(7));
    assert_eq!(reg.fetch("x"), Some(Renderer::External(7)));
    reg.register("page", Renderer::Bundle);
    assert_eq!(reg.fetch("page"), Some(Renderer::Bundle));
    assert_eq!(reg.fetch("bundle"), Some(Renderer::Bundle));
}

#[test]
fn dispatch_unknown_renderer() {
    let reg = RenderRegistry::new();
    match reg.to_prepared_render(context("nope")) {
        Err(Error::RenderNotFound(name)) => assert_eq!(name, "nope"),
        other => panic!("unexpected {other:?}"),
    }
}

#[test]
fn dispatch_page_and_bundle() {
    let reg = RenderRegistry::new();
    match reg.to_prepared_render(context("page")) {
        Ok(RenderTask::Artifact(a)) => {
            assert_eq!(a.path, "out/contents/2024-01-02%2003%3A04%3A05%20%2B00%3A00/index.html");
            assert_eq!(a.content, "\nbody");
        }
        other => panic!("unexpected {other:?}"),
    }
    assert!(matches!(
        reg.to_prepared_render(context("bundle")),
        Err(Error::RenderFailed(n, _)) if n == "bundle"
    ));
    let mut reg = RenderRegistry::new();
    reg.register("mine", Renderer::External(3));
    assert!(matches!(
        reg.to_prepared_render(context("mine")),
        Ok(RenderTask::External(3, c)) if c.source == "src/a/index.md"
    ));
}
