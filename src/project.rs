//! A project on disk: its manifest, its base directory, and the source and
//! output locations derived from them. Paths are `/`-separated text.
use vstd::prelude::*;

use crate::error::Error;
use crate::manifest::{manifest_decodes, manifest_error_of, manifest_of_text, Manifest};
use crate::text::chars_of;

verus! {

/// `comp` appended to `base` as a path component.
pub open spec fn join(base: Seq<char>, comp: Seq<char>) -> Seq<char> {
    if base.len() == 0 {
        comp
    } else {
        base + seq!['/'] + comp
    }
}

pub fn join_path(base: &str, comp: &str) -> (r: String)
    ensures
        r@ == join(base@, comp@),
{
    if base.unicode_len() == 0 {
        String::from_str(comp)
    } else {
        let r = String::from_str(base).concat("/").concat(comp);
        proof {
            reveal_strlit("/");
        }
        assert(r@ =~= join(base@, comp@));
        r
    }
}

/// The directory that holds the file at `path`: the text before its last
/// `/`, or the empty path where it has none.
pub open spec fn parent_of(path: Seq<char>) -> Seq<char> {
    if exists|i: int| 0 <= i < path.len() && path[i] == '/' {
        path.subrange(0, choose|i: int| 0 <= i < path.len() && path[i] == '/' && forall|j: int| i < j < path.len() ==> path[j] != '/')
    } else {
        Seq::empty()
    }
}

pub fn parent_path(path: &str) -> (r: String)
    ensures
        r@ == parent_of(path@),
{
    let cs = chars_of(path);
    let mut i: usize = cs.len();
    while i > 0 && cs[i - 1] != '/'
        invariant
            i <= cs@.len(),
            cs@ == path@,
            forall|j: int| i <= j < cs@.len() ==> cs@[j] != '/',
        decreases i,
    {
        i = i - 1;
    }
    if i == 0 {
        String::new()
    } else {
        let last = (i - 1) as usize;
        proof {
            let w = choose|k: int| 0 <= k < path@.len() && path@[k] == '/' && forall|j: int| k < j < path@.len() ==> path@[j] != '/';
            assert(w == last) by {
                if w < last {
                    assert(path@[last as int] == '/');
                } else if w > last {
                    assert(path@[w] != '/');
                }
            }
        }
        String::from_str(path.substring_char(0, last))
    }
}

/// A project: its manifest, the directory that holds it, and where a build
/// writes, where that was set.
pub struct MoxideProj {
    pub manifest: Manifest,
    pub base: String,
    pub output: Option<String>,
}

impl MoxideProj {
    /// The project whose manifest at `manifest_path` reads `text`.
    pub fn try_new(manifest_path: &str, text: &str) -> (r: Result<MoxideProj, Error>)
        ensures
            r is Ok <==> manifest_decodes(text@),
            r matches Ok(p) ==> {
                &&& manifest_of_text(p.manifest, text@)
                &&& p.base@ == parent_of(manifest_path@)
                &&& p.output is None
            },
            r matches Err(e) ==> manifest_error_of(e, text@),
    {
        let manifest = match Manifest::try_from_text(text) {
            Ok(m) => m,
            Err(e) => return Err(e),
        };
        Ok(MoxideProj { manifest, base: parent_path(manifest_path), output: None })
    }

    /// The source tree: `src` under the base.
    pub fn src(&self) -> (r: String)
        ensures
            r@ == join(self.base@, "src"@),
    {
        join_path(self.base.as_str(), "src")
    }

    /// The same as `src`.
    pub fn path_src(&self) -> (r: String)
        ensures
            r@ == join(self.base@, "src"@),
    {
        self.src()
    }

    /// The default output root: `output` under the base.
    pub fn output(&self) -> (r: String)
        ensures
            r@ == join(self.base@, "output"@),
    {
        join_path(self.base.as_str(), "output")
    }

    pub fn set_output(&mut self, output: String)
        ensures
            final(self).output == Some(output),
            final(self).manifest == old(self).manifest,
            final(self).base == old(self).base,
    {
        self.output = Some(output)
    }

    /// The output root: the one set, else `output` under the base.
    pub fn path_output(&self) -> (r: String)
        ensures
            r@ == match self.output {
                Some(o) => o@,
                None => join(self.base@, "output"@),
            },
    {
        match &self.output {
            Some(o) => o.clone(),
            None => self.output(),
        }
    }
}

/// A build of a manifest into an output root.
pub struct MoxideBuilder {
    pub manifest: Manifest,
    pub output: String,
}

impl MoxideBuilder {
    /// A builder that writes to `./output`.
    pub fn new(manifest: Manifest) -> (r: MoxideBuilder)
        ensures
            r.manifest == manifest,
            r.output@ == "./output"@,
    {
        MoxideBuilder { manifest, output: String::from_str("./output") }
    }

    pub fn output(&mut self, output: String)
        ensures
            final(self).output == output,
            final(self).manifest == old(self).manifest,
    {
        self.output = output
    }
}

} // verus!
