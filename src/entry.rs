//! The content-entry model: metadata, description and body of one document,
//! and the context in which it is rendered.
use vstd::prelude::*;

use crate::error::Error;
use crate::frontmatter::{
    block_at, block_inner, delim, description_of, first_marker_at, has_block, is_block,
    lemma_block_unique, lemma_first_marker_unique, marker, opens_with_delim, split_description,
    split_front_matter, stripped,
};
use crate::text::{
    absent, chars_of, find_from, lemma_trim_idempotent, lemma_trim_wrapped, lemma_window_blocked,
    lemma_window_inside, occurs_at, trim, trim_bounds, trim_front,
};
use crate::timestamp::{parsed_timestamp, timestamp_from, timestamp_rfc3339, Timestamp};
use crate::tomldoc::{
    all_text_v, encode_table, field_view, items_view, lemma_views_agree, read_fields, texts_dedup,
    texts_of_v, toml_accepts, toml_field_at, toml_pretty, Field, FieldView, ItemView, TomlItem,
};

verus! {

/// The metadata of an entry.
#[derive(Debug)]
pub struct Metadata {
    pub title: String,
    pub date: Timestamp,
    /// Each tag once; their order carries no meaning.
    pub tags: Vec<String>,
    /// The name of the renderer that renders the entry.
    pub renderer: String,
}

impl Metadata {
    pub open spec fn tag_seq(&self) -> Seq<Seq<char>> {
        self.tags@.map_values(|s: String| s@)
    }

    pub open spec fn tag_set(&self) -> Set<Seq<char>> {
        self.tag_seq().to_set()
    }

    pub open spec fn wf(&self) -> bool {
        self.date.wf() && self.tag_seq().no_duplicates()
    }
}

/// The renderer an entry gets where its metadata names none.
pub fn default_renderer() -> (r: String)
    ensures
        r@ == "page"@,
{
    String::from_str("page")
}

pub open spec fn text_of(f: FieldView) -> Seq<char> {
    match f {
        Some(Ok(s)) => s,
        _ => Seq::empty(),
    }
}

/// The tag field is absent or an array of strings.
pub open spec fn tags_ok(f: FieldView) -> bool {
    match f {
        None => true,
        Some(Err(Some(items))) => all_text_v(items),
        _ => false,
    }
}

pub open spec fn tags_of(f: FieldView) -> Set<Seq<char>> {
    match f {
        Some(Err(Some(items))) => texts_of_v(items),
        _ => Set::empty(),
    }
}

/// The renderer field is absent or a string.
pub open spec fn renderer_ok(f: FieldView) -> bool {
    f is None || f matches Some(Ok(_))
}

pub open spec fn renderer_of(f: FieldView) -> Seq<char> {
    match f {
        Some(Ok(s)) => s,
        _ => "page"@,
    }
}

/// The date a date field gives: a string that chrono reads, within range.
pub open spec fn date_of(f: FieldView) -> Option<Timestamp> {
    match f {
        Some(Ok(s)) => timestamp_from(parsed_timestamp(s)),
        _ => None,
    }
}

/// The first field, in the order title, date, tag, renderer, that is missing
/// where required or has the wrong type.
pub open spec fn bad_field(title: FieldView, date: Option<Timestamp>, tag: FieldView, renderer: FieldView) -> Seq<char> {
    if !(title matches Some(Ok(_))) {
        "title"@
    } else if date is None {
        "date"@
    } else if !tags_ok(tag) {
        "tag"@
    } else {
        "renderer"@
    }
}

pub open spec fn fields_ok(title: FieldView, date: Option<Timestamp>, tag: FieldView, renderer: FieldView) -> bool {
    title matches Some(Ok(_)) && date is Some && tags_ok(tag) && renderer_ok(renderer)
}

/// `meta` is the metadata that these fields give.
pub open spec fn meta_is(meta: Metadata, title: FieldView, date: Option<Timestamp>, tag: FieldView, renderer: FieldView) -> bool {
    &&& meta.wf()
    &&& meta.title@ == text_of(title)
    &&& meta.date == date->Some_0
    &&& meta.tag_set() == tags_of(tag)
    &&& meta.renderer@ == renderer_of(renderer)
}

/// The metadata document `m` is TOML and its fields are well typed.
pub open spec fn meta_decodes(m: Seq<char>) -> bool {
    &&& toml_accepts(m)
    &&& fields_ok(
        toml_field_at(m, "title"@),
        date_of(toml_field_at(m, "date"@)),
        toml_field_at(m, "tag"@),
        toml_field_at(m, "renderer"@),
    )
}

/// `meta` is what the metadata document `m` holds.
pub open spec fn meta_of_text(meta: Metadata, m: Seq<char>) -> bool {
    meta_is(
        meta,
        toml_field_at(m, "title"@),
        date_of(toml_field_at(m, "date"@)),
        toml_field_at(m, "tag"@),
        toml_field_at(m, "renderer"@),
    )
}

/// The error that decoding the metadata document `m` fails with: `TomlDe`
/// where it is not TOML, else `MetadataDecode` naming the first bad field.
pub open spec fn decode_error_of(e: Error, m: Seq<char>) -> bool {
    if !toml_accepts(m) {
        e is TomlDe
    } else {
        e is MetadataDecode && e->MetadataDecode_0@ == bad_field(
            toml_field_at(m, "title"@),
            date_of(toml_field_at(m, "date"@)),
            toml_field_at(m, "tag"@),
            toml_field_at(m, "renderer"@),
        )
    }
}

/// Builds metadata from the fields of its document. `title` and `date` are
/// required; `tag` defaults to no tags and `renderer` to `"page"`.
pub fn meta_from_fields(title: Field, date: Option<Timestamp>, tag: Field, renderer: Field) -> (r: Result<Metadata, Error>)
    requires
        date matches Some(d) ==> d.wf(),
    ensures
        r is Ok <==> fields_ok(field_view(title), date, field_view(tag), field_view(renderer)),
        r matches Ok(m) ==> meta_is(m, field_view(title), date, field_view(tag), field_view(renderer)),
        r matches Err(e) ==> e is MetadataDecode && e->MetadataDecode_0@ == bad_field(
            field_view(title),
            date,
            field_view(tag),
            field_view(renderer),
        ),
{
    proof {
        if tag is List {
            lemma_views_agree(tag->List_0@);
        }
    }
    let title = match title {
        Field::Text(s) => s,
        _ => return Err(Error::MetadataDecode(String::from_str("title"))),
    };
    let date = match date {
        Some(d) => d,
        None => return Err(Error::MetadataDecode(String::from_str("date"))),
    };
    let tags = match tag {
        Field::Missing => {
            let v: Vec<String> = Vec::new();
            assert(v@.map_values(|s: String| s@).to_set() =~= Set::empty());
            v
        },
        Field::List(items) => match texts_dedup(&items) {
            Some(v) => v,
            None => return Err(Error::MetadataDecode(String::from_str("tag"))),
        },
        _ => return Err(Error::MetadataDecode(String::from_str("tag"))),
    };
    let renderer = match renderer {
        Field::Missing => default_renderer(),
        Field::Text(s) => s,
        _ => return Err(Error::MetadataDecode(String::from_str("renderer"))),
    };
    Ok(Metadata { title, date, tags, renderer })
}

/// The date field read as a timestamp, where it is a string that chrono reads.
pub fn date_field(f: &Field) -> (r: Option<Timestamp>)
    ensures
        r matches Some(d) ==> d.wf(),
        r == date_of(field_view(*f)),
{
    match f {
        Field::Text(s) => Timestamp::parse(s.as_str()),
        _ => None,
    }
}

/// Reads the four metadata fields of a document, in the order title, date,
/// tag, renderer.
fn read_meta_fields(text: &str) -> (r: Result<(Field, Field, Field, Field), Error>)
    ensures
        r is Ok <==> toml_accepts(text@),
        r matches Err(e) ==> e is TomlDe,
        r matches Ok(f) ==> {
            &&& field_view(f.0) == toml_field_at(text@, "title"@)
            &&& field_view(f.1) == toml_field_at(text@, "date"@)
            &&& field_view(f.2) == toml_field_at(text@, "tag"@)
            &&& field_view(f.3) == toml_field_at(text@, "renderer"@)
        },
{
    let mut keys: Vec<String> = Vec::new();
    keys.push(String::from_str("title"));
    keys.push(String::from_str("date"));
    keys.push(String::from_str("tag"));
    keys.push(String::from_str("renderer"));
    let mut fields = match read_fields(text, &keys) {
        Ok(v) => v,
        Err(e) => return Err(Error::TomlDe(e)),
    };
    let ghost all = fields@;
    assert(field_view(all[3]) == toml_field_at(text@, keys@[3]@));
    assert(field_view(all[2]) == toml_field_at(text@, keys@[2]@));
    assert(field_view(all[1]) == toml_field_at(text@, keys@[1]@));
    assert(field_view(all[0]) == toml_field_at(text@, keys@[0]@));
    let renderer = fields.pop().unwrap();
    let tag = fields.pop().unwrap();
    let date = fields.pop().unwrap();
    let title = fields.pop().unwrap();
    Ok((title, date, tag, renderer))
}

/// Decodes a metadata document: `Ok` exactly where it is TOML with well-typed
/// fields, with the metadata those fields give; otherwise the decode error.
pub fn decode_meta(text: &str) -> (r: Result<Metadata, Error>)
    ensures
        r is Ok <==> meta_decodes(text@),
        r matches Ok(m) ==> meta_of_text(m, text@),
        r matches Err(e) ==> decode_error_of(e, text@),
{
    let (title, date, tag, renderer) = match read_meta_fields(text) {
        Ok(f) => f,
        Err(e) => return Err(e),
    };
    let date = date_field(&date);
    meta_from_fields(title, date, tag, renderer)
}

/// The document that holds metadata text `meta`, a description and a body.
pub open spec fn document(meta: Seq<char>, description: Seq<char>, body: Seq<char>) -> Seq<char> {
    delim() + seq!['\n'] + meta + seq!['\n'] + delim() + seq!['\n', '\n'] + description + seq!['\n']
        + marker() + seq!['\n', '\n'] + body
}

proof fn lemma_opens_with_delim(doc: Seq<char>)
    requires
        doc.len() >= 3,
        doc.subrange(0, 3) == delim(),
    ensures
        opens_with_delim(doc),
{
    assert(doc[0] == doc.subrange(0, 3)[0]);
    assert(doc[2] == doc.subrange(0, 3)[2]);
    assert(trim_front(doc) == doc);
    crate::text::lemma_trim_back_keeps(doc, 2);
    crate::text::lemma_trim_back_shape(doc);
    let t = trim(doc);
    assert(t == crate::text::trim_back(doc));
    assert(2 < t.len() <= doc.len());
    assert(t == doc.subrange(0, t.len() as int));
    assert(t.subrange(0, 3) =~= doc.subrange(0, 3));
}

#[verifier::rlimit(60)]
proof fn lemma_document_block(m: Seq<char>, rest: Seq<char>)
    requires
        trim(m) == m,
        absent(m, delim()),
    ensures
        ({
            let doc = delim() + seq!['\n'] + m + seq!['\n'] + delim() + rest;
            &&& doc.subrange(0, 3) == delim()
            &&& has_block(doc)
            &&& trim(block_inner(doc)) == m
            &&& stripped(doc) == rest
        }),
{
    let nl = seq!['\n'];
    let doc = delim() + nl + m + nl + delim() + rest;
    let pre = delim() + nl;
    let tail = nl + delim() + rest;
    assert(doc =~= pre + m + tail);
    let c: int = m.len() as int + 5;
    assert(doc.subrange(0, 3) =~= delim());
    assert(doc.subrange(c, c + 3) =~= delim());
    assert forall|k: int| 3 <= k < c implies !#[trigger] occurs_at(doc, delim(), k) by {
        if k == 3 {
            lemma_window_blocked(doc, delim(), k, 3);
        } else if k + 3 <= 4 + m.len() {
            if occurs_at(doc, delim(), k) {
                lemma_window_inside(pre, m, tail, delim(), k);
            }
        } else {
            lemma_window_blocked(doc, delim(), k, 4 + m.len() as int);
        }
    }
    assert(is_block(doc, 0, c));
    let (o2, c2) = block_at(doc);
    lemma_block_unique(doc, 0, c, o2, c2);
    assert(block_inner(doc) =~= nl + m + nl);
    lemma_trim_wrapped(nl, m, nl);
    assert(stripped(doc) =~= rest);
}

#[verifier::rlimit(60)]
proof fn lemma_document_description(d: Seq<char>, b: Seq<char>)
    requires
        trim(d) == d,
        absent(d, marker()),
    ensures
        description_of(seq!['\n', '\n'] + d + seq!['\n'] + marker() + seq!['\n', '\n'] + b) == d,
{
    let nl = seq!['\n'];
    let two = seq!['\n', '\n'];
    let rest = two + d + nl + marker() + two + b;
    let after = nl + marker() + two + b;
    assert(rest =~= two + d + after);
    let q: int = d.len() as int + 3;
    assert(rest.subrange(q, q + 13) =~= marker());
    assert forall|k: int| 0 <= k < q implies !#[trigger] occurs_at(rest, marker(), k) by {
        if k < 2 {
            lemma_window_blocked(rest, marker(), k, k);
        } else if k + 13 <= 2 + d.len() {
            if occurs_at(rest, marker(), k) {
                lemma_window_inside(two, d, after, marker(), k);
            }
        } else {
            lemma_window_blocked(rest, marker(), k, 2 + d.len() as int);
        }
    }
    assert(first_marker_at(rest, q));
    lemma_first_marker_unique(rest, q, choose|i: int| first_marker_at(rest, i));
    assert(rest.subrange(0, q) =~= two + d + nl);
    lemma_trim_wrapped(two, d, nl);
}

/// Reading back a written document. Where the metadata text is trimmed and
/// holds no delimiter, and the description is trimmed and holds no marker,
/// the parser accepts the document, finds that metadata text in its block,
/// and cuts that description from what remains, which ends with the body.
pub proof fn lemma_document_round_trip(m: Seq<char>, d: Seq<char>, b: Seq<char>)
    requires
        trim(m) == m,
        absent(m, delim()),
        trim(d) == d,
        absent(d, marker()),
    ensures
        ({
            let doc = document(m, d, b);
            &&& opens_with_delim(doc)
            &&& has_block(doc)
            &&& trim(block_inner(doc)) == m
            &&& stripped(doc) == seq!['\n', '\n'] + d + seq!['\n'] + marker() + seq!['\n', '\n'] + b
            &&& description_of(stripped(doc)) == d
        }),
{
    let rest = seq!['\n', '\n'] + d + seq!['\n'] + marker() + seq!['\n', '\n'] + b;
    let doc = document(m, d, b);
    assert(doc =~= delim() + seq!['\n'] + m + seq!['\n'] + delim() + rest);
    lemma_document_block(m, rest);
    lemma_opens_with_delim(doc);
    lemma_document_description(d, b);
}

/// What `into_document` writes is read back by `with_content`: for metadata
/// whose TOML text `t` holds no delimiter once trimmed, and a trimmed
/// description without the marker, the document opens and closes its block,
/// its block holds exactly the trimmed `t` that was written, the description
/// comes back, and the body stands at the end of the text.
pub proof fn lemma_written_entry_reads_back(meta: Metadata, t: Seq<char>, d: Seq<char>, b: Seq<char>)
    requires
        toml_pretty(meta_items_of(meta)) == Some(t),
        absent(trim(t), delim()),
        trim(d) == d,
        absent(d, marker()),
    ensures
        ({
            let doc = document(trim(t), d, b);
            &&& opens_with_delim(doc)
            &&& has_block(doc)
            &&& block_meta(doc) == trim(t)
            &&& description_of(stripped(doc)) == d
            &&& stripped(doc) == seq!['\n', '\n'] + d + seq!['\n'] + marker() + seq!['\n', '\n'] + b
        }),
{
    lemma_trim_idempotent(t);
    lemma_document_round_trip(trim(t), d, b);
}

/// Writes a document from its metadata text, description and body.
pub fn compose_document(meta: &str, description: &str, body: &str) -> (r: String)
    ensures
        r@ == document(meta@, description@, body@),
{
    let mut out = String::from_str("+++\n");
    out.append(meta);
    out.append("\n+++\n\n");
    out.append(description);
    out.append("\n<!-- more -->\n\n");
    out.append(body);
    proof {
        reveal_strlit("+++\n");
        reveal_strlit("\n+++\n\n");
        reveal_strlit("\n<!-- more -->\n\n");
    }
    assert(out@ =~= document(meta@, description@, body@));
    out
}

pub fn delim_chars() -> (r: Vec<char>)
    ensures
        r@ == delim(),
{
    let r = vec!['+', '+', '+'];
    assert(r@ =~= delim());
    r
}

/// The fields that metadata is written with: title and date always, tags
/// and renderer where not empty.
/// The items metadata is written with: title and date (RFC 3339) always,
/// tags and renderer where not empty.
pub open spec fn meta_items_of(meta: Metadata) -> Seq<ItemView> {
    let date = timestamp_rfc3339(meta.date.secs, meta.date.nanos, meta.date.offset);
    let base = seq![("title"@, Ok(meta.title@)), ("date"@, Ok(date))];
    let with_tags = if meta.tags@.len() > 0 {
        base.push(("tag"@, Err(meta.tag_seq())))
    } else {
        base
    };
    if meta.renderer@.len() > 0 {
        with_tags.push(("renderer"@, Ok(meta.renderer@)))
    } else {
        with_tags
    }
}

fn meta_items(meta: &Metadata) -> (r: Vec<(String, TomlItem)>)
    requires
        meta.wf(),
    ensures
        items_view(r@) == meta_items_of(*meta),
{
    let mut items: Vec<(String, TomlItem)> = Vec::new();
    items.push((String::from_str("title"), TomlItem::Text(meta.title.clone())));
    items.push((String::from_str("date"), TomlItem::Text(meta.date.rfc3339())));
    let ghost date = timestamp_rfc3339(meta.date.secs, meta.date.nanos, meta.date.offset);
    let ghost base = items_view(items@);
    assert(base =~= seq![("title"@, Ok(meta.title@)), ("date"@, Ok(date))]);
    if meta.tags.len() > 0 {
        items.push((String::from_str("tag"), TomlItem::Texts(meta.tags.clone())));
    }
    let ghost with_tags = items_view(items@);
    assert(with_tags =~= if meta.tags@.len() > 0 {
        base.push(("tag"@, Err(meta.tag_seq())))
    } else {
        base
    });
    if meta.renderer.as_str().unicode_len() > 0 {
        items.push((String::from_str("renderer"), TomlItem::Text(meta.renderer.clone())));
    }
    assert(items_view(items@) =~= meta_items_of(*meta));
    items
}

/// The trimmed metadata text of a document's block.
pub open spec fn block_meta(s: Seq<char>) -> Seq<char> {
    trim(block_inner(s))
}

/// What parsing a document gives: `InvalidDataBlock` where the framing is
/// wrong; else, where the block decodes, the entry with that metadata, the
/// text without the block, and the description cut from it; else the decode
/// error of the block.
pub open spec fn parses_as(content: Seq<char>, r: Result<ContentEntry, Error>) -> bool {
    if !(opens_with_delim(content) && has_block(content)) {
        r == Err::<ContentEntry, Error>(Error::InvalidDataBlock)
    } else if meta_decodes(block_meta(content)) {
        r matches Ok(e) && {
            &&& meta_of_text(e.meta, block_meta(content))
            &&& e.content@ == stripped(content)
            &&& e.description@ == description_of(stripped(content))
        }
    } else {
        r is Err && decode_error_of(r->Err_0, block_meta(content))
    }
}

/// What `urlencoding` makes of a text.
pub uninterp spec fn url_encoded(s: Seq<char>) -> Seq<char>;

/// Relies on `urlencoding::encode`: the percent-encoding of the text, which
/// depends on the text alone.
#[verifier::external_body]
fn url_encode(s: &str) -> (r: String)
    ensures
        r@ == url_encoded(s@),
{
    urlencoding::encode(s).into_owned()
}

/// Where an entry dated `date` is rendered under the output root `root`.
pub open spec fn output_path_of(root: Seq<char>, date: Timestamp) -> Seq<char> {
    root + "/contents/"@ + url_encoded(crate::timestamp::timestamp_display(date.secs, date.nanos, date.offset))
}

/// The output location of an entry: the root, `contents`, and the encoded date.
pub fn output_path(root: &str, date: &Timestamp) -> (r: String)
    requires
        date.wf(),
    ensures
        r@ == output_path_of(root@, *date),
{
    let shown = date.display();
    let enc = url_encode(shown.as_str());
    String::from_str(root).concat("/contents/").concat(enc.as_str())
}

/// One document: its metadata, its description, and its text without the block.
#[derive(Debug)]
pub struct ContentEntry {
    pub meta: Metadata,
    pub description: String,
    pub content: String,
}

impl ContentEntry {
    /// An entry with the given metadata and description and an empty body.
    pub fn new(meta: Metadata, description: String) -> (r: ContentEntry)
        ensures
            r.meta == meta,
            r.description == description,
            r.content@ == Seq::<char>::empty(),
    {
        ContentEntry { meta, description, content: String::new() }
    }

    /// The entry of a document whose metadata has been decoded: the body is
    /// the document without its block, the description is cut from it.
    pub fn assemble(meta: Metadata, body: String) -> (r: ContentEntry)
        ensures
            r.meta == meta,
            r.content@ == body@,
            r.description@ == description_of(body@),
    {
        let description = split_description(body.as_str());
        ContentEntry { meta, description, content: body }
    }

    /// Writes the entry back as a document: its metadata as trimmed TOML
    /// between the delimiters, then description, marker and body. Fails where
    /// the metadata text would itself hold the delimiter.
    pub fn into_document(self) -> (r: Result<String, Error>)
        requires
            self.meta.wf(),
        ensures
            match toml_pretty(meta_items_of(self.meta)) {
                None => r is Err && r->Err_0 is TomlSer,
                Some(t) => if absent(trim(t), delim()) {
                    r is Ok && r->Ok_0@ == document(trim(t), self.description@, self.content@)
                } else {
                    r == Err::<String, Error>(Error::InvalidDataBlock)
                },
            },
    {
        let items = meta_items(&self.meta);
        let text = match encode_table(&items) {
            Ok(t) => t,
            Err(e) => return Err(Error::TomlSer(e)),
        };
        let tc = chars_of(text.as_str());
        let (a, b) = trim_bounds(&tc);
        let m = text.as_str().substring_char(a, b);
        let mc = chars_of(m);
        proof {
            lemma_trim_idempotent(text@);
        }
        match find_from(&mc, &delim_chars(), 0) {
            Some(_) => Err(Error::InvalidDataBlock),
            None => Ok(compose_document(m, self.description.as_str(), self.content.as_str())),
        }
    }

    /// Parses a document. Fails with `InvalidDataBlock` exactly where the
    /// trimmed text does not open with `+++` or the block is not closed; then
    /// with the error of decoding the block.
    pub fn with_content(content: &str) -> (r: Result<ContentEntry, Error>)
        ensures
            parses_as(content@, r),
    {
        let front = match split_front_matter(content) {
            Ok(f) => f,
            Err(e) => return Err(e),
        };
        let meta = match decode_meta(front.meta.as_str()) {
            Ok(m) => m,
            Err(e) => return Err(e),
        };
        Ok(ContentEntry::assemble(meta, front.body))
    }
}

} // verus!

verus! {

/// One entry with where it was read from and where it is rendered to.
#[derive(Debug)]
pub struct EntryContext {
    pub source: String,
    pub output: String,
    pub entry: ContentEntry,
}

impl EntryContext {
    /// Parses the text read from `source` and places the entry under `root`
    /// by its date.
    pub fn try_new(source: String, root: &str, text: &str) -> (r: Result<EntryContext, Error>)
        ensures
            match r {
                Ok(c) => {
                    &&& c.source == source
                    &&& c.output@ == output_path_of(root@, c.entry.meta.date)
                    &&& parses_as(text@, Ok(c.entry))
                },
                Err(e) => parses_as(text@, Err(e)),
            },
    {
        let entry = match ContentEntry::with_content(text) {
            Ok(e) => e,
            Err(e) => return Err(e),
        };
        let output = output_path(root, &entry.meta.date);
        Ok(EntryContext { source, output, entry })
    }
}

} // verus!
