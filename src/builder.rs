//! The build orchestrator's decisions: which walked files are entries, how
//! parsed entries are dispatched, and the report of what succeeded and failed.
//! Reading, walking and writing are left to the caller.
use vstd::prelude::*;

use crate::entry::{bad_field, block_meta, date_of, meta_decodes, output_path_of, renderer_of, EntryContext};
use crate::frontmatter::{has_block, opens_with_delim, stripped};
use crate::tomldoc::{toml_accepts, toml_field_at};
use crate::error::Error;
use crate::render::{page_path, Artifact, RenderRegistry, RenderTask, Renderer};

verus! {

/// Entries are found at most this many levels below the scan root.
pub const MAX_DEPTH: usize = 2;

/// A file met while walking the source tree.
#[derive(Debug)]
pub struct FoundFile {
    pub path: String,
    /// The last component of the path.
    pub name: String,
    /// Levels below the scan root.
    pub depth: usize,
    pub is_file: bool,
}

pub open spec fn is_entry_file(f: FoundFile) -> bool {
    f.is_file && f.name@ == "index.md"@ && f.depth <= MAX_DEPTH
}

/// The paths of the entry files among `found`, in walk order.
pub open spec fn entry_paths(found: Seq<FoundFile>) -> Seq<Seq<char>>
    decreases found.len(),
{
    if found.len() == 0 {
        Seq::empty()
    } else {
        let rest = entry_paths(found.drop_last());
        if is_entry_file(found.last()) {
            rest.push(found.last().path@)
        } else {
            rest
        }
    }
}

/// Keeps the files named `index.md` within the depth bound.
pub fn select_entries(found: &Vec<FoundFile>) -> (r: Vec<String>)
    ensures
        r@.map_values(|s: String| s@) == entry_paths(found@),
{
    let entry_name = String::from_str("index.md");
    let mut out: Vec<String> = Vec::new();
    let mut i: usize = 0;
    while i < found.len()
        invariant
            i <= found@.len(),
            entry_name@ == "index.md"@,
            out@.map_values(|s: String| s@) == entry_paths(found@.subrange(0, i as int)),
        decreases found@.len() - i,
    {
        let f = &found[i];
        let ghost before = out@.map_values(|s: String| s@);
        proof {
            assert(found@.subrange(0, i + 1).drop_last() =~= found@.subrange(0, i as int));
        }
        if f.is_file && f.name == entry_name && f.depth <= MAX_DEPTH {
            out.push(f.path.clone());
            assert(out@.map_values(|s: String| s@) =~= before.push(f.path@));
        }
        i = i + 1;
    }
    assert(found@.subrange(0, found@.len() as int) =~= found@);
    out
}

/// An entry that failed, with where it was read from.
#[derive(Debug)]
pub struct Failure {
    pub source: String,
    pub error: Error,
}

/// What a build did with each entry.
#[derive(Debug)]
pub struct BuildReport {
    /// Sources of the entries rendered.
    pub succeeded: Vec<String>,
    pub failed: Vec<Failure>,
}

impl BuildReport {
    pub open spec fn succeeded_seq(&self) -> Seq<Seq<char>> {
        self.succeeded@.map_values(|s: String| s@)
    }

    pub open spec fn failed_seq(&self) -> Seq<Seq<char>> {
        self.failed@.map_values(|f: Failure| f.source@)
    }

    pub fn new() -> (r: BuildReport)
        ensures
            r.succeeded@.len() == 0,
            r.failed@.len() == 0,
    {
        BuildReport { succeeded: Vec::new(), failed: Vec::new() }
    }

    /// Records the outcome of one entry.
    pub fn record(&mut self, source: String, outcome: Result<(), Error>)
        ensures
            outcome is Ok ==> final(self).succeeded@ == old(self).succeeded@.push(source)
                && final(self).failed@ == old(self).failed@,
            outcome matches Err(e) ==> final(self).failed@ == old(self).failed@.push(
                Failure { source, error: e },
            ) && final(self).succeeded@ == old(self).succeeded@,
    {
        match outcome {
            Ok(()) => self.succeeded.push(source),
            Err(error) => self.failed.push(Failure { source, error }),
        }
    }

    /// The build as a whole failed: there were entries and none succeeded.
    pub fn is_failure(&self) -> (r: bool)
        ensures
            r == (self.succeeded@.len() == 0 && self.failed@.len() > 0),
    {
        self.succeeded.len() == 0 && self.failed.len() > 0
    }
}

/// An error in plain values: a code for its kind, and the name, path or
/// message it carries.
pub open spec fn error_kind(e: Error) -> (int, Seq<char>) {
    match e {
        Error::Io(m) => (0, m@),
        Error::TomlDe(_) => (1, Seq::empty()),
        Error::TomlSer(_) => (2, Seq::empty()),
        Error::MetadataDecode(n) => (3, n@),
        Error::RenderNotFound(n) => (4, n@),
        Error::RenderFailed(n, _) => (5, n@),
        Error::OutputCollision(p) => (6, p@),
        Error::InvalidDataBlock => (7, Seq::empty()),
        Error::Unknown => (8, Seq::empty()),
    }
}

/// A parsed entry in plain values: on success its source, output location,
/// renderer name and text; on failure its source and error kind.
pub type EntryView = Result<(Seq<char>, Seq<char>, Seq<char>, Seq<char>), (Seq<char>, (int, Seq<char>))>;

/// A source file's path and text, as read.
#[derive(Debug)]
pub struct SourceText {
    pub path: String,
    pub text: String,
}

pub open spec fn entry_view(e: Result<EntryContext, Failure>) -> EntryView {
    match e {
        Ok(c) => Ok((c.source@, c.output@, c.entry.meta.renderer@, c.entry.content@)),
        Err(f) => Err((f.source@, error_kind(f.error))),
    }
}

/// The kind of error that decoding the metadata document `m` fails with.
pub open spec fn decode_error_kind(m: Seq<char>) -> (int, Seq<char>) {
    if !toml_accepts(m) {
        (1, Seq::empty())
    } else {
        (3, bad_field(
            toml_field_at(m, "title"@),
            date_of(toml_field_at(m, "date"@)),
            toml_field_at(m, "tag"@),
            toml_field_at(m, "renderer"@),
        ))
    }
}

/// What parsing the source at `path` with text `text` gives, placed under `root`.
pub open spec fn parse_view(root: Seq<char>, path: Seq<char>, text: Seq<char>) -> EntryView {
    if !(opens_with_delim(text) && has_block(text)) {
        Err((path, (7, Seq::empty())))
    } else {
        let m = block_meta(text);
        if meta_decodes(m) {
            Ok((
                path,
                output_path_of(root, date_of(toml_field_at(m, "date"@))->Some_0),
                renderer_of(toml_field_at(m, "renderer"@)),
                stripped(text),
            ))
        } else {
            Err((path, decode_error_kind(m)))
        }
    }
}

/// The abstract result of planning: artifacts (path and content), rendered
/// sources, failed sources with their error kinds, and the entries handed to
/// external renderers (handle and source).
pub struct PlanView {
    pub artifacts: Seq<(Seq<char>, Seq<char>)>,
    pub succeeded: Seq<Seq<char>>,
    pub failed: Seq<(Seq<char>, (int, Seq<char>))>,
    pub external: Seq<(u64, Seq<char>)>,
}

pub open spec fn plan_start() -> PlanView {
    PlanView { artifacts: Seq::empty(), succeeded: Seq::empty(), failed: Seq::empty(), external: Seq::empty() }
}

pub open spec fn plan_fail(p: PlanView, source: Seq<char>, kind: (int, Seq<char>)) -> PlanView {
    PlanView { failed: p.failed.push((source, kind)), ..p }
}

pub open spec fn artifact_paths(p: PlanView) -> Seq<Seq<char>> {
    p.artifacts.map_values(|a: (Seq<char>, Seq<char>)| a.0)
}

/// One entry's effect on the plan. An unknown renderer fails with
/// `RenderNotFound`, the bundle renderer with `RenderFailed`, and a page whose
/// path another page already takes with `OutputCollision`.
pub open spec fn plan_step(reg: Map<Seq<char>, Renderer>, p: PlanView, e: EntryView) -> PlanView {
    match e {
        Err((source, kind)) => plan_fail(p, source, kind),
        Ok((source, out, name, content)) => {
            if !reg.contains_key(name) {
                plan_fail(p, source, (4, name))
            } else {
                match reg[name] {
                    Renderer::Page => {
                        let path = page_path(out);
                        if artifact_paths(p).contains(path) {
                            plan_fail(p, source, (6, path))
                        } else {
                            PlanView {
                                artifacts: p.artifacts.push((path, content)),
                                succeeded: p.succeeded.push(source),
                                ..p
                            }
                        }
                    },
                    Renderer::Bundle => plan_fail(p, source, (5, name)),
                    Renderer::External(h) => PlanView { external: p.external.push((h, source)), ..p },
                }
            }
        },
    }
}

/// The plan for parsed entries, taken from the last to the first.
pub open spec fn planned(reg: Map<Seq<char>, Renderer>, entries: Seq<EntryView>) -> PlanView
    decreases entries.len(),
{
    if entries.len() == 0 {
        plan_start()
    } else {
        plan_step(reg, planned(reg, entries.drop_first()), entries[0])
    }
}

/// What building the sources (path and text) under `root` comes to.
pub open spec fn build_outcome(reg: Map<Seq<char>, Renderer>, root: Seq<char>, sources: Seq<(Seq<char>, Seq<char>)>) -> PlanView {
    planned(reg, sources.map_values(|s: (Seq<char>, Seq<char>)| parse_view(root, s.0, s.1)))
}

/// An entry whose renderer is not registered is recorded as failed with
/// `RenderNotFound` of that name, and the plan goes on with the next entry.
pub proof fn lemma_unknown_renderer_recorded(
    reg: Map<Seq<char>, Renderer>,
    p: PlanView,
    source: Seq<char>,
    out: Seq<char>,
    name: Seq<char>,
    content: Seq<char>,
)
    requires
        !reg.contains_key(name),
    ensures
        plan_step(reg, p, Ok((source, out, name, content))).failed == p.failed.push((source, (4, name))),
        plan_step(reg, p, Ok((source, out, name, content))).artifacts == p.artifacts,
        plan_step(reg, p, Ok((source, out, name, content))).succeeded == p.succeeded,
{
}

/// Every entry is accounted for exactly once: rendered, failed, or handed to
/// an external renderer; as many artifacts as rendered entries, at distinct
/// paths.
pub proof fn lemma_plan_accounts(reg: Map<Seq<char>, Renderer>, entries: Seq<EntryView>)
    ensures
        planned(reg, entries).succeeded.len() + planned(reg, entries).failed.len()
            + planned(reg, entries).external.len() == entries.len(),
        planned(reg, entries).artifacts.len() == planned(reg, entries).succeeded.len(),
        artifact_paths(planned(reg, entries)).no_duplicates(),
    decreases entries.len(),
{
    if entries.len() > 0 {
        lemma_plan_accounts(reg, entries.drop_first());
        let p = planned(reg, entries.drop_first());
        let q = planned(reg, entries);
        let pp = artifact_paths(p);
        let qp = artifact_paths(q);
        if q.artifacts.len() > p.artifacts.len() {
            let (source, out, name, content) = entries[0]->Ok_0;
            let path = page_path(out);
            assert(q.artifacts == p.artifacts.push((path, content)));
            assert(!pp.contains(path));
            assert(qp =~= pp.push(path));
            assert forall|a: int, b: int| 0 <= a < b < qp.len() implies qp[a] != qp[b] by {
                if b == qp.len() - 1 {
                    assert(pp[a] == qp[a]);
                    assert(pp.contains(pp[a]));
                } else {
                    assert(pp[a] == qp[a] && pp[b] == qp[b]);
                }
            }
        } else {
            assert(qp =~= pp);
        }
    }
}

/// Building twice from the same sources, under the same root and with the
/// same registry, gives the same artifacts (paths and contents) and the same
/// report.
pub proof fn lemma_build_repeatable(
    reg: Map<Seq<char>, Renderer>,
    root: Seq<char>,
    first: Seq<(Seq<char>, Seq<char>)>,
    second: Seq<(Seq<char>, Seq<char>)>,
)
    requires
        first == second,
    ensures
        build_outcome(reg, root, first).artifacts == build_outcome(reg, root, second).artifacts,
        build_outcome(reg, root, first).succeeded == build_outcome(reg, root, second).succeeded,
        build_outcome(reg, root, first).failed == build_outcome(reg, root, second).failed,
{
}

/// What a build has to do once entries are parsed and dispatched.
#[derive(Debug)]
pub struct BuildPlan {
    /// Files to write, at distinct paths.
    pub artifacts: Vec<Artifact>,
    /// Entries for externally registered renderers, with their handles.
    pub external: Vec<(u64, EntryContext)>,
    pub report: BuildReport,
}

impl BuildPlan {
    pub open spec fn view(&self) -> PlanView {
        PlanView {
            artifacts: self.artifacts@.map_values(|a: Artifact| (a.path@, a.content@)),
            succeeded: self.report.succeeded_seq(),
            failed: self.report.failed@.map_values(|f: Failure| (f.source@, error_kind(f.error))),
            external: self.external@.map_values(|x: (u64, EntryContext)| (x.0, x.1.source@)),
        }
    }
}

/// Whether some artifact in `done` is written to `path`.
fn path_taken(done: &Vec<Artifact>, path: &String) -> (r: bool)
    ensures
        r == done@.map_values(|a: Artifact| a.path@).contains(path@),
{
    let mut i: usize = 0;
    while i < done.len()
        invariant
            i <= done@.len(),
            forall|j: int| 0 <= j < i ==> done@[j].path@ != path@,
        decreases done@.len() - i,
    {
        if done[i].path == *path {
            assert(done@.map_values(|a: Artifact| a.path@)[i as int] == path@);
            return true;
        }
        i = i + 1;
    }
    false
}

/// Dispatches every parsed entry through the registry. A failed parse, an
/// unknown renderer, a renderer's own failure or an output path already taken
/// is recorded with its error against its entry; the other entries go on.
pub fn plan_build(registry: &RenderRegistry, entries: Vec<Result<EntryContext, Failure>>) -> (r: BuildPlan)
    ensures
        r.view() == planned(registry@, entries@.map_values(|e: Result<EntryContext, Failure>| entry_view(e))),
{
    let ghost all = entries@.map_values(|e: Result<EntryContext, Failure>| entry_view(e));
    let ghost orig = entries@;
    let mut entries = entries;
    let mut plan = BuildPlan { artifacts: Vec::new(), external: Vec::new(), report: BuildReport::new() };
    proof {
        assert(all.subrange(all.len() as int, all.len() as int) =~= Seq::<EntryView>::empty());
        assert(plan.view().artifacts =~= Seq::<(Seq<char>, Seq<char>)>::empty());
        assert(plan.view().succeeded =~= Seq::<Seq<char>>::empty());
        assert(plan.view().failed =~= Seq::<(Seq<char>, (int, Seq<char>))>::empty());
        assert(plan.view().external =~= Seq::<(u64, Seq<char>)>::empty());
    }
    while entries.len() > 0
        invariant
            entries@ == orig.subrange(0, entries@.len() as int),
            entries@.len() <= orig.len(),
            all.len() == orig.len(),
            forall|i: int| 0 <= i < orig.len() ==> all[i] == entry_view(#[trigger] orig[i]),
            plan.view() == planned(registry@, all.subrange(entries@.len() as int, all.len() as int)),
        decreases entries@.len(),
    {
        let ghost k = entries@.len() as int;
        let ghost p0 = plan.view();
        let e = entries.pop().unwrap();
        proof {
            assert(all.subrange(k - 1, all.len() as int).drop_first() =~= all.subrange(k, all.len() as int));
            assert(all.subrange(k - 1, all.len() as int)[0] == all[k - 1]);
            assert(entries@ =~= orig.subrange(0, k - 1));
            assert(e == orig[k - 1]);
        }
        let ghost ev = entry_view(e);
        match e {
            Err(f) => {
                let ghost fv = (f.source@, error_kind(f.error));
                plan.report.failed.push(f);
                assert(plan.view().failed =~= p0.failed.push(fv));
                assert(plan.view() == plan_step(registry@, p0, ev));
            },
            Ok(ctx) => {
                let source = ctx.source.clone();
                let ghost gc = ctx;
                match registry.to_prepared_render(ctx) {
                    Err(error) => {
                        let ghost fv = (gc.source@, error_kind(error));
                        plan.report.failed.push(Failure { source, error });
                        assert(plan.view().failed =~= p0.failed.push(fv));
                        assert(plan.view() == plan_step(registry@, p0, ev));
                    },
                    Ok(RenderTask::Artifact(a)) => {
                        assert(p0.artifacts.map_values(|x: (Seq<char>, Seq<char>)| x.0) =~= plan.artifacts@.map_values(|x: Artifact| x.path@));
                        if path_taken(&plan.artifacts, &a.path) {
                            let ghost fv = (gc.source@, (6int, a.path@));
                            let error = Error::OutputCollision(a.path);
                            plan.report.failed.push(Failure { source, error });
                            assert(plan.view().failed =~= p0.failed.push(fv));
                            assert(plan.view() == plan_step(registry@, p0, ev));
                        } else {
                            let ghost av = (a.path@, a.content@);
                            plan.artifacts.push(a);
                            plan.report.succeeded.push(source);
                            assert(plan.view().artifacts =~= p0.artifacts.push(av));
                            assert(plan.view().succeeded =~= p0.succeeded.push(gc.source@));
                            assert(plan.view() == plan_step(registry@, p0, ev));
                        }
                    },
                    Ok(RenderTask::External(h, c)) => {
                        plan.external.push((h, c));
                        assert(plan.view().external =~= p0.external.push((h, gc.source@)));
                        assert(plan.view() == plan_step(registry@, p0, ev));
                    },
                }
            },
        }
    }
    assert(all.subrange(0, all.len() as int) =~= all);
    plan
}

/// Parses each source on its own, placing entries under `root`; a failure
/// stays with its source and does not stop the others.
pub fn parse_sources(root: &str, sources: Vec<SourceText>) -> (r: Vec<Result<EntryContext, Failure>>)
    ensures
        r@.len() == sources@.len(),
        forall|i: int| 0 <= i < r@.len() ==> entry_view(#[trigger] r@[i]) == parse_view(
            root@,
            sources@[i].path@,
            sources@[i].text@,
        ),
{
    let ghost all = sources@;
    let mut rev: Vec<Result<EntryContext, Failure>> = Vec::new();
    let mut sources = sources;
    while sources.len() > 0
        invariant
            sources@ == all.subrange(0, sources@.len() as int),
            sources@.len() + rev@.len() == all.len(),
            forall|j: int| 0 <= j < rev@.len() ==> entry_view(#[trigger] rev@[j]) == parse_view(
                root@,
                all[all.len() - 1 - j].path@,
                all[all.len() - 1 - j].text@,
            ),
        decreases sources@.len(),
    {
        let ghost k = sources@.len() as int;
        let s = sources.pop().unwrap();
        assert(s == all[k - 1]);
        assert(sources@ =~= all.subrange(0, k - 1));
        let path = s.path.clone();
        let ghost text = s.text@;
        let r = match EntryContext::try_new(s.path, root, s.text.as_str()) {
            Ok(c) => Ok(c),
            Err(error) => Err(Failure { source: path, error }),
        };
        assert(entry_view(r) == parse_view(root@, path@, text));
        rev.push(r);
    }
    let mut out: Vec<Result<EntryContext, Failure>> = Vec::new();
    let n = rev.len();
    while rev.len() > 0
        invariant
            rev@.len() + out@.len() == n == all.len(),
            forall|j: int| 0 <= j < rev@.len() ==> entry_view(#[trigger] rev@[j]) == parse_view(
                root@,
                all[n - 1 - j].path@,
                all[n - 1 - j].text@,
            ),
            forall|i: int| 0 <= i < out@.len() ==> entry_view(#[trigger] out@[i]) == parse_view(
                root@,
                all[i].path@,
                all[i].text@,
            ),
        decreases rev@.len(),
    {
        let ghost k = rev@.len() as int;
        let r = rev.pop().unwrap();
        assert(entry_view(r) == parse_view(root@, all[n - k].path@, all[n - k].text@));
        out.push(r);
        assert forall|i: int| 0 <= i < out@.len() implies entry_view(#[trigger] out@[i]) == parse_view(
            root@,
            all[i].path@,
            all[i].text@,
        ) by {
            if i == out@.len() - 1 {
                assert(out@[i] == r);
            }
        }
    }
    out
}

/// Parses the sources and dispatches the entries: the whole of a build but
/// for reading and writing files.
pub fn build_plan(registry: &RenderRegistry, root: &str, sources: Vec<SourceText>) -> (r: BuildPlan)
    ensures
        r.view() == build_outcome(
            registry@,
            root@,
            sources@.map_values(|s: SourceText| (s.path@, s.text@)),
        ),
{
    let ghost srcs = sources@;
    let entries = parse_sources(root, sources);
    let ghost pairs = srcs.map_values(|s: SourceText| (s.path@, s.text@));
    assert(entries@.map_values(|e: Result<EntryContext, Failure>| entry_view(e)) =~= pairs.map_values(
        |s: (Seq<char>, Seq<char>)| parse_view(root@, s.0, s.1),
    ));
    plan_build(registry, entries)
}

} // verus!
