//! The front-matter format: a metadata block between two `+++` lines at the
//! top of a document, and an excerpt marker that ends the description.
use vstd::prelude::*;

use crate::error::Error;
use crate::text::{absent_in, chars_of, find_from, occurs_at, trim, trim_bounds};

verus! {

/// The delimiter that opens and closes the metadata block.
pub open spec fn delim() -> Seq<char> {
    seq!['+', '+', '+']
}

/// The marker that ends the description: `<!-- more -->`.
pub open spec fn marker() -> Seq<char> {
    seq!['<', '!', '-', '-', ' ', 'm', 'o', 'r', 'e', ' ', '-', '-', '>']
}

/// The block opens at `o` and closes at `c`: `o` is the first delimiter in `s`
/// and `c` the first one that starts after it ends.
pub open spec fn is_block(s: Seq<char>, o: int, c: int) -> bool {
    &&& occurs_at(s, delim(), o)
    &&& absent_in(s, delim(), 0, o)
    &&& o + 3 <= c
    &&& occurs_at(s, delim(), c)
    &&& absent_in(s, delim(), o + 3, c)
}

pub open spec fn has_block(s: Seq<char>) -> bool {
    exists|o: int, c: int| is_block(s, o, c)
}

pub open spec fn block_at(s: Seq<char>) -> (int, int) {
    choose|o: int, c: int| is_block(s, o, c)
}

/// The text between the two delimiters of the block.
pub open spec fn block_inner(s: Seq<char>) -> Seq<char> {
    s.subrange(block_at(s).0 + 3, block_at(s).1)
}

/// The document with its block, delimiters included, taken out.
pub open spec fn stripped(s: Seq<char>) -> Seq<char> {
    s.subrange(0, block_at(s).0) + s.subrange(block_at(s).1 + 3, s.len() as int)
}

/// After trimming, the document begins with the delimiter.
pub open spec fn opens_with_delim(s: Seq<char>) -> bool {
    occurs_at(trim(s), delim(), 0)
}

/// The marker first occurs at `i`.
pub open spec fn first_marker_at(s: Seq<char>, i: int) -> bool {
    occurs_at(s, marker(), i) && absent_in(s, marker(), 0, i)
}

/// The description of a body: the trimmed text before the first marker, or
/// the whole trimmed body where there is no marker.
pub open spec fn description_of(body: Seq<char>) -> Seq<char> {
    if exists|i: int| first_marker_at(body, i) {
        trim(body.subrange(0, choose|i: int| first_marker_at(body, i)))
    } else {
        trim(body)
    }
}

pub proof fn lemma_block_unique(s: Seq<char>, o1: int, c1: int, o2: int, c2: int)
    requires
        is_block(s, o1, c1),
        is_block(s, o2, c2),
    ensures
        o1 == o2 && c1 == c2,
{
    if o1 < o2 {
        assert(!occurs_at(s, delim(), o1));
    } else if o2 < o1 {
        assert(!occurs_at(s, delim(), o2));
    }
    if c1 < c2 {
        assert(!occurs_at(s, delim(), c1));
    } else if c2 < c1 {
        assert(!occurs_at(s, delim(), c2));
    }
}

pub proof fn lemma_first_marker_unique(s: Seq<char>, i: int, j: int)
    requires
        first_marker_at(s, i),
        first_marker_at(s, j),
    ensures
        i == j,
{
    if i < j {
        assert(!occurs_at(s, marker(), i));
    } else if j < i {
        assert(!occurs_at(s, marker(), j));
    }
}

/// Relies on `regex::Regex::captures` for the pattern `(?s)\+\+\+(.*?)\+\+\+`:
/// the leftmost match, shortest inner part, `.` matching line breaks too.
/// Returns the text before the match, the captured group, and the text after.
#[verifier::external_body]
fn block_captures(content: &str) -> (r: Option<(String, String, String)>)
    ensures
        match r {
            None => !has_block(content@),
            Some(p) => exists|o: int, c: int|
                {
                    &&& is_block(content@, o, c)
                    &&& p.0@ == content@.subrange(0, o)
                    &&& p.1@ == content@.subrange(o + 3, c)
                    &&& p.2@ == content@.subrange(c + 3, content@.len() as int)
                },
        },
{
    let re = regex::Regex::new(r"(?s)\+\+\+(.*?)\+\+\+").unwrap();
    re.captures(content).map(|caps| {
        let (whole, inner) = (caps.get(0).unwrap(), caps.get(1).unwrap());
        let before = content[..whole.start()].to_string();
        (before, inner.as_str().to_string(), content[whole.end()..].to_string())
    })
}

/// A document split at its metadata block.
pub struct FrontMatter {
    /// The trimmed text inside the block.
    pub meta: String,
    /// The document with the block removed.
    pub body: String,
}

/// Splits a document into its trimmed metadata text and the rest.
/// Fails with `InvalidDataBlock` exactly when the trimmed document does not
/// begin with the delimiter or no closing delimiter follows the opening one.
pub fn split_front_matter(content: &str) -> (r: Result<FrontMatter, Error>)
    ensures
        r is Ok <==> opens_with_delim(content@) && has_block(content@),
        r matches Err(e) ==> e == Error::InvalidDataBlock,
        r matches Ok(f) ==> f.meta@ == trim(block_inner(content@)) && f.body@ == stripped(
            content@,
        ),
{
    let cs = chars_of(content);
    let (lo, hi) = trim_bounds(&cs);
    let opens = hi - lo >= 3 && cs[lo] == '+' && cs[lo + 1] == '+' && cs[lo + 2] == '+';
    proof {
        let t = cs@.subrange(lo as int, hi as int);
        if opens {
            assert(t.subrange(0, 3) =~= delim());
        } else if occurs_at(t, delim(), 0) {
            assert(t.subrange(0, 3)[0] == t[0]);
            assert(t.subrange(0, 3)[1] == t[1]);
            assert(t.subrange(0, 3)[2] == t[2]);
        }
    }
    if !opens {
        return Err(Error::InvalidDataBlock);
    }
    match block_captures(content) {
        None => Err(Error::InvalidDataBlock),
        Some((before, inner, after)) => {
            proof {
                let (o, c) = choose|o: int, c: int|
                    {
                        &&& is_block(content@, o, c)
                        &&& before@ == content@.subrange(0, o)
                        &&& inner@ == content@.subrange(o + 3, c)
                        &&& after@ == content@.subrange(c + 3, content@.len() as int)
                    };
                let (o2, c2) = block_at(content@);
                lemma_block_unique(content@, o, c, o2, c2);
            }
            let ic = chars_of(inner.as_str());
            let (a, b) = trim_bounds(&ic);
            let meta = String::from_str(inner.as_str().substring_char(a, b));
            let body = before.concat(after.as_str());
            Ok(FrontMatter { meta, body })
        },
    }
}

/// The document with its first block removed; unchanged where it has none.
pub fn strip(content: &str) -> (r: String)
    ensures
        r@ == if has_block(content@) {
            stripped(content@)
        } else {
            content@
        },
{
    match block_captures(content) {
        None => String::from_str(content),
        Some((before, _inner, after)) => {
            proof {
                let (o, c) = choose|o: int, c: int|
                    {
                        &&& is_block(content@, o, c)
                        &&& before@ == content@.subrange(0, o)
                        &&& after@ == content@.subrange(c + 3, content@.len() as int)
                    };
                let (o2, c2) = block_at(content@);
                lemma_block_unique(content@, o, c, o2, c2);
            }
            before.concat(after.as_str())
        },
    }
}

pub fn marker_chars() -> (r: Vec<char>)
    ensures
        r@ == marker(),
{
    let r = vec!['<', '!', '-', '-', ' ', 'm', 'o', 'r', 'e', ' ', '-', '-', '>'];
    assert(r@ =~= marker());
    r
}

/// The description of a body: the trimmed text before the first excerpt
/// marker, or the whole trimmed body where it has none.
pub fn split_description(body: &str) -> (r: String)
    ensures
        r@ == description_of(body@),
{
    let cs = chars_of(body);
    let m = marker_chars();
    let end: usize = match find_from(&cs, &m, 0) {
        Some(i) => {
            proof {
                lemma_first_marker_unique(body@, i as int, choose|j: int| first_marker_at(body@, j));
            }
            i
        },
        None => {
            assert(!exists|i: int| first_marker_at(body@, i));
            cs.len()
        },
    };
    let head = body.substring_char(0, end);
    let hc = chars_of(head);
    let (a, b) = trim_bounds(&hc);
    proof {
        if end == cs.len() {
            assert(head@ =~= body@);
        }
    }
    String::from_str(head.substring_char(a, b))
}

} // verus!
