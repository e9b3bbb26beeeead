//! Renderers and the registry that maps a renderer name to one.
use vstd::prelude::*;

use crate::entry::EntryContext;
use crate::error::Error;

verus! {

/// A renderer: one of the built-ins, or one that the embedding program
/// registered and runs itself, known here by its handle.
#[derive(Debug, Clone, Copy, PartialEq, Eq, Structural, Hash)]
pub enum Renderer {
    /// Renders one document to its output location.
    Page,
    /// Groups co-located resources; not supported yet.
    Bundle,
    External(u64),
}

#[verifier::external_type_specification]
#[verifier::external_body]
#[verifier::reject_recursive_types(K)]
#[verifier::reject_recursive_types(V)]
#[verifier::reject_recursive_types(S)]
pub struct ExImHashMap<K, V, S>(im::HashMap<K, V, S>);

/// The map that holds a registry's renderers.
pub type RendererMap = im::HashMap<String, Renderer>;

/// The name-to-renderer pairs that an `im::HashMap` holds.
pub uninterp spec fn map_entries(m: RendererMap) -> Map<Seq<char>, Renderer>;

/// Relies on `im::HashMap::new`: the map is empty.
#[verifier::external_body]
fn map_new() -> (r: RendererMap)
    ensures
        map_entries(r) =~= Map::empty(),
{
    im::HashMap::new()
}

/// Relies on `im::HashMap::insert`: the key maps to the value afterwards,
/// replacing any earlier value; other keys are untouched.
#[verifier::external_body]
fn map_insert(m: &mut RendererMap, key: String, value: Renderer)
    ensures
        map_entries(*final(m)) == map_entries(*old(m)).insert(key@, value),
{
    m.insert(key, value);
}

/// Relies on `im::HashMap::get`: the value under a key equal to `key`, if any.
#[verifier::external_body]
fn map_get(m: &RendererMap, key: &str) -> (r: Option<Renderer>)
    ensures
        r == if map_entries(*m).contains_key(key@) {
            Some(map_entries(*m)[key@])
        } else {
            None
        },
{
    m.get(key).cloned()
}

/// The table of renderers by name, owned by whoever runs a build.
pub struct RenderRegistry {
    map: RendererMap,
}

impl View for RenderRegistry {
    type V = Map<Seq<char>, Renderer>;

    closed spec fn view(&self) -> Map<Seq<char>, Renderer> {
        map_entries(self.map)
    }
}

/// The registry before any registration: `page` and `bundle`.
pub open spec fn builtin_renderers() -> Map<Seq<char>, Renderer> {
    map![ "page"@ => Renderer::Page, "bundle"@ => Renderer::Bundle ]
}

/// Before any registration, `page` and `bundle` are registered, to the page
/// and bundle renderers, and no other name is.
pub proof fn lemma_builtins_present(name: Seq<char>)
    ensures
        builtin_renderers().contains_key("page"@),
        builtin_renderers()["page"@] == Renderer::Page,
        builtin_renderers().contains_key("bundle"@),
        builtin_renderers()["bundle"@] == Renderer::Bundle,
        builtin_renderers().contains_key(name) <==> (name == "page"@ || name == "bundle"@),
{
    reveal_strlit("page");
    reveal_strlit("bundle");
    assert("page"@.len() != "bundle"@.len());
}

/// After `register(key, r)`, fetching `key` gives `r`, and every other name
/// fetches what it did before.
pub proof fn lemma_register_then_fetch(
    before: Map<Seq<char>, Renderer>,
    key: Seq<char>,
    r: Renderer,
    other: Seq<char>,
)
    ensures
        before.insert(key, r).contains_key(key),
        before.insert(key, r)[key] == r,
        other != key ==> (before.insert(key, r).contains_key(other) <==> before.contains_key(other)),
        other != key && before.contains_key(other) ==> before.insert(key, r)[other] == before[other],
{
}

/// What rendering an entry leaves to be done.
#[derive(Debug)]
pub enum RenderTask {
    /// A file to write.
    Artifact(Artifact),
    /// An entry for the externally registered renderer with this handle.
    External(u64, EntryContext),
}

/// A file that a renderer produced.
#[derive(Debug)]
pub struct Artifact {
    pub path: String,
    pub content: String,
}

/// Where the page renderer writes an entry whose output location is `out`.
pub open spec fn page_path(out: Seq<char>) -> Seq<char> {
    out + "/index.html"@
}

impl RenderRegistry {
    /// A registry that holds the built-in renderers.
    pub fn new() -> (r: RenderRegistry)
        ensures
            r@ == builtin_renderers(),
    {
        let mut map = map_new();
        map_insert(&mut map, String::from_str("page"), Renderer::Page);
        map_insert(&mut map, String::from_str("bundle"), Renderer::Bundle);
        let r = RenderRegistry { map };
        assert(r@ =~= builtin_renderers());
        r
    }

    /// Registers `render` under `key`, replacing an earlier registration.
    pub fn register(&mut self, key: &str, render: Renderer)
        ensures
            final(self)@ == old(self)@.insert(key@, render),
    {
        map_insert(&mut self.map, String::from_str(key), render);
    }

    /// The renderer registered under exactly this name.
    pub fn fetch(&self, key: &str) -> (r: Option<Renderer>)
        ensures
            r == if self@.contains_key(key@) {
                Some(self@[key@])
            } else {
                None
            },
    {
        map_get(&self.map, key)
    }

    /// Looks up the entry's renderer and renders with it: the page renderer
    /// writes the body to `index.html` under the output location; the bundle
    /// renderer fails as not supported; an external one is handed back.
    pub fn to_prepared_render(&self, ctx: EntryContext) -> (r: Result<RenderTask, Error>)
        ensures
            ({
                let name = ctx.entry.meta.renderer@;
                if !self@.contains_key(name) {
                    r matches Err(e) && e is RenderNotFound && e->RenderNotFound_0@ == name
                } else {
                    match self@[name] {
                        Renderer::Page => r matches Ok(RenderTask::Artifact(a)) && a.path@ == page_path(
                            ctx.output@,
                        ) && a.content@ == ctx.entry.content@,
                        Renderer::Bundle => r matches Err(e) && e is RenderFailed
                            && e->RenderFailed_0@ == name,
                        Renderer::External(h) => r matches Ok(RenderTask::External(h2, c)) && h2
                            == h && c == ctx,
                    }
                }
            }),
    {
        match self.fetch(ctx.entry.meta.renderer.as_str()) {
            None => Err(Error::RenderNotFound(ctx.entry.meta.renderer.clone())),
            Some(Renderer::Page) => {
                let path = ctx.output.clone().concat("/index.html");
                Ok(RenderTask::Artifact(Artifact { path, content: ctx.entry.content }))
            },
            Some(Renderer::Bundle) => Err(
                Error::RenderFailed(ctx.entry.meta.renderer.clone(), String::from_str("not yet supported")),
            ),
            Some(Renderer::External(h)) => Ok(RenderTask::External(h, ctx)),
        }
    }
}

} // verus!
