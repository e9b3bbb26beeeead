//! The site manifest: one per project, read once per build.
use vstd::prelude::*;

use crate::error::Error;
use crate::tomldoc::{
    all_text_v, encode_table, field_view, items_view, lemma_views_agree, opt_views, read_fields,
    texts_in_order, toml_accepts, toml_field_at, toml_pretty, Field, FieldView, ItemView, TomlItem,
};

verus! {

/// Site-level configuration.
#[derive(Debug)]
pub struct Manifest {
    pub site: String,
    pub description: String,
    pub theme: String,
    /// Renderer names, in the order given.
    pub renders: Vec<String>,
}

/// The description of a manifest that gives none.
pub fn default_description() -> (r: String)
    ensures
        r@ == Seq::<char>::empty(),
{
    String::new()
}

/// The theme of a manifest that gives none.
pub fn default_theme() -> (r: String)
    ensures
        r@ == Seq::<char>::empty(),
{
    String::new()
}

/// A field that is absent or a string.
pub open spec fn text_or_missing(f: FieldView) -> bool {
    f is None || f matches Some(Ok(_))
}

/// The string of a field, or the empty text where it is absent.
pub open spec fn text_or_empty(f: FieldView) -> Seq<char> {
    match f {
        Some(Ok(s)) => s,
        _ => Seq::empty(),
    }
}

pub open spec fn list_ok(f: FieldView) -> bool {
    match f {
        None => true,
        Some(Err(Some(items))) => all_text_v(items),
        _ => false,
    }
}

/// The strings of a list field, in order; none where it is absent.
pub open spec fn list_of(f: FieldView) -> Seq<Option<Seq<char>>> {
    match f {
        Some(Err(Some(items))) => items,
        _ => Seq::empty(),
    }
}

/// The manifest fields are well typed: `site` a string; `description` and
/// `theme` absent or strings; `renders` absent or an array of strings.
pub open spec fn manifest_fields_ok(site: FieldView, description: FieldView, theme: FieldView, renders: FieldView) -> bool {
    site matches Some(Ok(_)) && text_or_missing(description) && text_or_missing(theme) && list_ok(renders)
}

/// The first field, in the order site, description, theme, renders, that is
/// missing where required or has the wrong type.
pub open spec fn bad_manifest_field(site: FieldView, description: FieldView, theme: FieldView) -> Seq<char> {
    if !(site matches Some(Ok(_))) {
        "site"@
    } else if !text_or_missing(description) {
        "description"@
    } else if !text_or_missing(theme) {
        "theme"@
    } else {
        "renders"@
    }
}

/// `m` is the manifest these fields give.
pub open spec fn manifest_is(m: Manifest, site: FieldView, description: FieldView, theme: FieldView, renders: FieldView) -> bool {
    &&& m.site@ == text_or_empty(site)
    &&& m.description@ == text_or_empty(description)
    &&& m.theme@ == text_or_empty(theme)
    &&& m.renders@.len() == list_of(renders).len()
    &&& forall|i: int| 0 <= i < m.renders@.len() ==> list_of(renders)[i] == Some(#[trigger] m.renders@[i]@)
}

/// The manifest document is TOML and its fields are well typed.
pub open spec fn manifest_decodes(text: Seq<char>) -> bool {
    toml_accepts(text) && manifest_fields_ok(
        toml_field_at(text, "site"@),
        toml_field_at(text, "description"@),
        toml_field_at(text, "theme"@),
        toml_field_at(text, "renders"@),
    )
}

/// `m` is what the manifest document holds.
pub open spec fn manifest_of_text(m: Manifest, text: Seq<char>) -> bool {
    manifest_is(
        m,
        toml_field_at(text, "site"@),
        toml_field_at(text, "description"@),
        toml_field_at(text, "theme"@),
        toml_field_at(text, "renders"@),
    )
}

/// The error that reading the manifest document fails with.
pub open spec fn manifest_error_of(e: Error, text: Seq<char>) -> bool {
    if !toml_accepts(text) {
        e is TomlDe
    } else {
        e is MetadataDecode && e->MetadataDecode_0@ == bad_manifest_field(
            toml_field_at(text, "site"@),
            toml_field_at(text, "description"@),
            toml_field_at(text, "theme"@),
        )
    }
}

/// The items a manifest is written with: site and description always, theme
/// and renders where not empty.
pub open spec fn manifest_items(m: Manifest) -> Seq<ItemView> {
    let base = seq![("site"@, Ok(m.site@)), ("description"@, Ok(m.description@))];
    let with_theme = if m.theme@.len() > 0 {
        base.push(("theme"@, Ok(m.theme@)))
    } else {
        base
    };
    if m.renders@.len() > 0 {
        with_theme.push(("renders"@, Err(m.renders@.map_values(|s: String| s@))))
    } else {
        with_theme
    }
}

impl Manifest {
    /// Builds a manifest from its fields, with the declared defaults.
    pub fn from_fields(site: Field, description: Field, theme: Field, renders: Field) -> (r: Result<Manifest, Error>)
        ensures
            r is Ok <==> manifest_fields_ok(field_view(site), field_view(description), field_view(theme), field_view(renders)),
            r matches Ok(m) ==> manifest_is(m, field_view(site), field_view(description), field_view(theme), field_view(renders)),
            r matches Err(e) ==> e is MetadataDecode && e->MetadataDecode_0@ == bad_manifest_field(
                field_view(site),
                field_view(description),
                field_view(theme),
            ),
    {
        proof {
            if renders is List {
                lemma_views_agree(renders->List_0@);
            }
        }
        let site = match site {
            Field::Text(s) => s,
            _ => return Err(Error::MetadataDecode(String::from_str("site"))),
        };
        let description = match description {
            Field::Missing => default_description(),
            Field::Text(s) => s,
            _ => return Err(Error::MetadataDecode(String::from_str("description"))),
        };
        let theme = match theme {
            Field::Missing => default_theme(),
            Field::Text(s) => s,
            _ => return Err(Error::MetadataDecode(String::from_str("theme"))),
        };
        let renders = match renders {
            Field::Missing => Vec::new(),
            Field::List(items) => match texts_in_order(&items) {
                Some(v) => {
                    assert forall|i: int| 0 <= i < v@.len() implies opt_views(items@)[i] == Some(#[trigger] v@[i]@) by {
                        assert(items@[i] == Some(v@[i]));
                    }
                    v
                },
                None => return Err(Error::MetadataDecode(String::from_str("renders"))),
            },
            _ => return Err(Error::MetadataDecode(String::from_str("renders"))),
        };
        Ok(Manifest { site, description, theme, renders })
    }

    /// Reads a manifest document: `Ok` exactly where it is TOML with
    /// well-typed fields, with the manifest those fields give.
    pub fn try_from_text(text: &str) -> (r: Result<Manifest, Error>)
        ensures
            r is Ok <==> manifest_decodes(text@),
            r matches Ok(m) ==> manifest_of_text(m, text@),
            r matches Err(e) ==> manifest_error_of(e, text@),
    {
        let mut keys: Vec<String> = Vec::new();
        keys.push(String::from_str("site"));
        keys.push(String::from_str("description"));
        keys.push(String::from_str("theme"));
        keys.push(String::from_str("renders"));
        let mut fields = match read_fields(text, &keys) {
            Ok(v) => v,
            Err(e) => return Err(Error::TomlDe(e)),
        };
        let ghost all = fields@;
        assert(field_view(all[3]) == toml_field_at(text@, keys@[3]@));
        assert(field_view(all[2]) == toml_field_at(text@, keys@[2]@));
        assert(field_view(all[1]) == toml_field_at(text@, keys@[1]@));
        assert(field_view(all[0]) == toml_field_at(text@, keys@[0]@));
        let renders = fields.pop().unwrap();
        let theme = fields.pop().unwrap();
        let description = fields.pop().unwrap();
        let site = fields.pop().unwrap();
        Manifest::from_fields(site, description, theme, renders)
    }

    /// Writes the manifest as TOML: site and description always, theme and
    /// renders where not empty.
    pub fn to_toml(&self) -> (r: Result<String, Error>)
        ensures
            r is Ok <==> toml_pretty(manifest_items(*self)) is Some,
            r matches Ok(t) ==> toml_pretty(manifest_items(*self)) == Some(t@),
            r matches Err(e) ==> e is TomlSer,
    {
        let mut items: Vec<(String, TomlItem)> = Vec::new();
        items.push((String::from_str("site"), TomlItem::Text(self.site.clone())));
        items.push((String::from_str("description"), TomlItem::Text(self.description.clone())));
        let ghost base = items_view(items@);
        assert(base =~= seq![("site"@, Ok(self.site@)), ("description"@, Ok(self.description@))]);
        if self.theme.as_str().unicode_len() > 0 {
            items.push((String::from_str("theme"), TomlItem::Text(self.theme.clone())));
        }
        let ghost with_theme = items_view(items@);
        assert(with_theme =~= if self.theme@.len() > 0 {
            base.push(("theme"@, Ok(self.theme@)))
        } else {
            base
        });
        if self.renders.len() > 0 {
            items.push((String::from_str("renders"), TomlItem::Texts(self.renders.clone())));
        }
        assert(items_view(items@) =~= manifest_items(*self));
        match encode_table(&items) {
            Ok(t) => Ok(t),
            Err(e) => Err(Error::TomlSer(e)),
        }
    }
}

} // verus!
