//! Reading a Markdown note: its YAML front matter and its body.
//!
//! `gray_matter` finds the front matter and parses its YAML; the library
//! reads the resulting data into a [`NoteFrontmatter`], field by field, with
//! the defaults and the `type` alias of the note schema.
use vstd::prelude::*;

use crate::error::JeanneError;
use crate::json::{
    find_entry, json_array_items_of, json_object_entries_of, json_optional_string_of,
    json_string_list_of, json_string_of, key_date_creation, key_date_modification, key_id,
    key_note_type, key_source_media, key_statut, key_tags, lookup_entry, pairs_view,
    read_array_items, read_object_entries, read_optional_string, read_string,
    read_string_list, title_key,
};
use crate::models::{
    default_frontmatter_view, default_note_type, default_statut, opt_string_view,
    spec_default_note_type, spec_default_statut, strings_view, FrontmatterView, NoteFrontmatter,
};
use crate::text::{trim_leading_newlines, trim_start_newlines};

verus! {

/// What `gray_matter` (YAML engine, `---` delimiters) makes of `content`:
/// the front matter data, when a non-empty one is found, as the compact JSON
/// text of its value; and the content with the front matter and its
/// delimiters stripped.
pub uninterp spec fn front_matter_of(content: Seq<char>) -> (Option<Seq<char>>, Seq<char>);

/// Splits a note with `gray_matter::Matter::<YAML>::parse`; the front
/// matter data (a `Pod`) is turned into a `serde_json::Value` by
/// `gray_matter`'s own conversion and written with `Value::to_string`.
/// Claims only that the result is [`front_matter_of`] of the content (the
/// JSON object's keys come out sorted, so the text does not depend on the
/// order in which the YAML mapping was walked).
#[verifier::external_body]
fn split_front_matter(content: &str) -> (r: (Option<String>, String))
    ensures
        front_matter_of(content@) == (opt_string_view(r.0), r.1@),
{
    let parsed = gray_matter::Matter::<gray_matter::engine::YAML>::new().parse(content);
    let data = parsed.data.map(
        |pod| {
            let value: serde_json::Value = pod.into();
            value.to_string()
        },
    );
    (data, parsed.content)
}

/// The key `type`, accepted in place of `note_type`.
pub open spec fn key_type_alias() -> Seq<char> {
    seq!['t', 'y', 'p', 'e']
}

/// A text field: its default when absent, else the JSON string it holds.
pub open spec fn decode_text(raw: Option<Seq<char>>, default: Seq<char>) -> Option<Seq<char>> {
    match raw {
        None => Some(default),
        Some(r) => json_string_of(r),
    }
}

/// The tag list: empty when absent, else the JSON array of strings it holds.
pub open spec fn decode_tags(raw: Option<Seq<char>>) -> Option<Seq<Seq<char>>> {
    match raw {
        None => Some(Seq::empty()),
        Some(r) => json_string_list_of(r),
    }
}

/// The source media: none when absent, else the JSON string or `null` it holds.
pub open spec fn decode_media(raw: Option<Seq<char>>) -> Option<Option<Seq<char>>> {
    match raw {
        None => Some(None),
        Some(r) => json_optional_string_of(r),
    }
}

/// A front matter from the JSON texts of its eight fields (each absent or
/// present): `None` as soon as one field holds a value of the wrong kind.
pub open spec fn frontmatter_from_fields(
    id: Option<Seq<char>>,
    title: Option<Seq<char>>,
    date_creation: Option<Seq<char>>,
    date_modification: Option<Seq<char>>,
    note_type: Option<Seq<char>>,
    statut: Option<Seq<char>>,
    tags: Option<Seq<char>>,
    source_media: Option<Seq<char>>,
) -> Option<FrontmatterView> {
    match (
        decode_text(id, Seq::empty()),
        decode_text(title, Seq::empty()),
        decode_text(date_creation, Seq::empty()),
        decode_text(date_modification, Seq::empty()),
        decode_text(note_type, spec_default_note_type()),
        decode_text(statut, spec_default_statut()),
        decode_tags(tags),
        decode_media(source_media),
    ) {
        (Some(a), Some(b), Some(c), Some(d), Some(e), Some(f), Some(g), Some(h)) => Some(
            FrontmatterView {
                id: a,
                title: b,
                date_creation: c,
                date_modification: d,
                note_type: e,
                statut: f,
                tags: g,
                source_media: h,
            },
        ),
        _ => None,
    }
}

/// A front matter from the entries of a JSON object: fields are found by
/// name, `type` stands for `note_type`, other keys are ignored, and naming
/// the note type under both keys is an error.
pub open spec fn frontmatter_from_entries(e: Seq<(Seq<char>, Seq<char>)>) -> Option<
    FrontmatterView,
> {
    let nt = lookup_entry(e, key_note_type());
    let alias = lookup_entry(e, key_type_alias());
    if nt is Some && alias is Some {
        None
    } else {
        frontmatter_from_fields(
            lookup_entry(e, key_id()),
            lookup_entry(e, title_key()),
            lookup_entry(e, key_date_creation()),
            lookup_entry(e, key_date_modification()),
            if nt is Some {
                nt
            } else {
                alias
            },
            lookup_entry(e, key_statut()),
            lookup_entry(e, key_tags()),
            lookup_entry(e, key_source_media()),
        )
    }
}

/// The text recorded under `key` in a JSON object's entries: the JSON
/// string held there, or `default` when the key is absent.
pub open spec fn text_under(
    e: Seq<(Seq<char>, Seq<char>)>,
    key: Seq<char>,
    default: Seq<char>,
) -> Seq<char> {
    match lookup_entry(e, key) {
        Some(raw) => json_string_of(raw)->Some_0,
        None => default,
    }
}

/// Each text field of a front matter read from a JSON object comes from
/// its own key, whatever the other keys hold: `id`, `title`,
/// `date_creation`, `date_modification` and `statut` give the JSON string
/// recorded under that very key (empty, or `actif` for the status, when
/// absent), and `note_type` gives the note type when that key is present.
pub proof fn lemma_fields_come_from_their_own_keys(e: Seq<(Seq<char>, Seq<char>)>)
    ensures
        frontmatter_from_entries(e) is Some ==> {
            let fm = frontmatter_from_entries(e)->Some_0;
            &&& fm.id == text_under(e, seq!['i', 'd'], Seq::empty())
            &&& fm.title == text_under(e, seq!['t', 'i', 't', 'l', 'e'], Seq::empty())
            &&& fm.date_creation == text_under(
                e,
                seq!['d', 'a', 't', 'e', '_', 'c', 'r', 'e', 'a', 't', 'i', 'o', 'n'],
                Seq::empty(),
            )
            &&& fm.date_modification == text_under(
                e,
                seq!['d', 'a', 't', 'e', '_', 'm', 'o', 'd', 'i', 'f', 'i', 'c', 'a', 't', 'i', 'o', 'n'],
                Seq::empty(),
            )
            &&& fm.statut == text_under(
                e,
                seq!['s', 't', 'a', 't', 'u', 't'],
                seq!['a', 'c', 't', 'i', 'f'],
            )
            &&& lookup_entry(e, seq!['n', 'o', 't', 'e', '_', 't', 'y', 'p', 'e']) is Some
                ==> fm.note_type == text_under(
                e,
                seq!['n', 'o', 't', 'e', '_', 't', 'y', 'p', 'e'],
                Seq::empty(),
            )
            &&& fm.tags == match lookup_entry(e, seq!['t', 'a', 'g', 's']) {
                Some(raw) => json_string_list_of(raw)->Some_0,
                None => Seq::empty(),
            }
            &&& fm.source_media == match lookup_entry(
                e,
                seq!['s', 'o', 'u', 'r', 'c', 'e', '_', 'm', 'e', 'd', 'i', 'a'],
            ) {
                Some(raw) => json_optional_string_of(raw)->Some_0,
                None => None,
            }
        },
{
    assert(key_id() =~= seq!['i', 'd']);
    assert(title_key() =~= seq!['t', 'i', 't', 'l', 'e']);
    assert(key_date_creation() =~= seq!['d', 'a', 't', 'e', '_', 'c', 'r', 'e', 'a', 't', 'i', 'o', 'n']);
    assert(key_date_modification() =~= seq![
        'd', 'a', 't', 'e', '_', 'm', 'o', 'd', 'i', 'f', 'i', 'c', 'a', 't', 'i', 'o', 'n',
    ]);
    assert(key_statut() =~= seq!['s', 't', 'a', 't', 'u', 't']);
    assert(key_note_type() =~= seq!['n', 'o', 't', 'e', '_', 't', 'y', 'p', 'e']);
    assert(spec_default_statut() =~= seq!['a', 'c', 't', 'i', 'f']);
    assert(key_tags() =~= seq!['t', 'a', 'g', 's']);
    assert(key_source_media() =~= seq!['s', 'o', 'u', 'r', 'c', 'e', '_', 'm', 'e', 'd', 'i', 'a']);
}

/// The `i`-th item of a list, if there is one.
pub open spec fn item_at(items: Seq<Seq<char>>, i: int) -> Option<Seq<char>> {
    if 0 <= i < items.len() {
        Some(items[i])
    } else {
        None
    }
}

/// A front matter from the items of a JSON array, read as the fields in
/// declaration order: missing trailing fields take their defaults, and more
/// than eight items is an error.
pub open spec fn frontmatter_from_items(items: Seq<Seq<char>>) -> Option<FrontmatterView> {
    if items.len() > 8 {
        None
    } else {
        frontmatter_from_fields(
            item_at(items, 0),
            item_at(items, 1),
            item_at(items, 2),
            item_at(items, 3),
            item_at(items, 4),
            item_at(items, 5),
            item_at(items, 6),
            item_at(items, 7),
        )
    }
}

/// The front matter recorded by the JSON text `text`: an object is read by
/// field names, an array by position; any other value is an error.
pub open spec fn frontmatter_from_json_spec(text: Seq<char>) -> Option<FrontmatterView> {
    match json_object_entries_of(text) {
        Some(e) => frontmatter_from_entries(e),
        None => match json_array_items_of(text) {
            Some(items) => frontmatter_from_items(items),
            None => None,
        },
    }
}

/// What reading a note gives: its front matter (the default one when the
/// note has none) and its body without leading line breaks; `None` when the
/// note has front matter that does not read as a [`NoteFrontmatter`].
pub open spec fn parsed_note(content: Seq<char>) -> Option<(FrontmatterView, Seq<char>)> {
    let (data, body) = front_matter_of(content);
    match data {
        None => Some((default_frontmatter_view(), trim_leading_newlines(body))),
        Some(json) => match frontmatter_from_json_spec(json) {
            Some(fm) => Some((fm, trim_leading_newlines(body))),
            None => None,
        },
    }
}

/// The view of an optional front matter.
pub open spec fn opt_frontmatter_view(o: Option<NoteFrontmatter>) -> Option<FrontmatterView> {
    match o {
        Some(fm) => Some(fm@),
        None => None,
    }
}

fn decode_text_field(raw: Option<String>, default: String) -> (r: Option<String>)
    ensures
        opt_string_view(r) == decode_text(opt_string_view(raw), default@),
{
    match raw {
        None => Some(default),
        Some(text) => read_string(text.as_str()),
    }
}

fn decode_tags_field(raw: Option<String>) -> (r: Option<Vec<String>>)
    ensures
        (match r {
            Some(v) => Some(strings_view(v@)),
            None => None,
        }) == decode_tags(opt_string_view(raw)),
{
    match raw {
        None => {
            let v: Vec<String> = Vec::new();
            assert(strings_view(v@) =~= Seq::empty());
            Some(v)
        },
        Some(text) => read_string_list(text.as_str()),
    }
}

fn decode_media_field(raw: Option<String>) -> (r: Option<Option<String>>)
    ensures
        (match r {
            Some(o) => Some(opt_string_view(o)),
            None => None,
        }) == decode_media(opt_string_view(raw)),
{
    match raw {
        None => Some(None),
        Some(text) => read_optional_string(text.as_str()),
    }
}

/// Reads a front matter from the JSON texts of its eight fields.
pub fn frontmatter_from_raw_fields(
    id: Option<String>,
    title: Option<String>,
    date_creation: Option<String>,
    date_modification: Option<String>,
    note_type: Option<String>,
    statut: Option<String>,
    tags: Option<String>,
    source_media: Option<String>,
) -> (r: Option<NoteFrontmatter>)
    ensures
        opt_frontmatter_view(r) == frontmatter_from_fields(
            opt_string_view(id),
            opt_string_view(title),
            opt_string_view(date_creation),
            opt_string_view(date_modification),
            opt_string_view(note_type),
            opt_string_view(statut),
            opt_string_view(tags),
            opt_string_view(source_media),
        ),
{
    let a = decode_text_field(id, String::new());
    let b = decode_text_field(title, String::new());
    let c = decode_text_field(date_creation, String::new());
    let d = decode_text_field(date_modification, String::new());
    let e = decode_text_field(note_type, default_note_type());
    let f = decode_text_field(statut, default_statut());
    let g = decode_tags_field(tags);
    let h = decode_media_field(source_media);
    match (a, b, c, d, e, f, g, h) {
        (Some(a), Some(b), Some(c), Some(d), Some(e), Some(f), Some(g), Some(h)) => Some(
            NoteFrontmatter {
                id: a,
                title: b,
                date_creation: c,
                date_modification: d,
                note_type: e,
                statut: f,
                tags: g,
                source_media: h,
            },
        ),
        _ => None,
    }
}

/// Reads a front matter from the entries of a JSON object.
pub fn frontmatter_from_object(entries: &Vec<(String, String)>) -> (r: Option<NoteFrontmatter>)
    ensures
        opt_frontmatter_view(r) == frontmatter_from_entries(pairs_view(entries@)),
{
    proof {
        reveal_strlit("note_type");
        reveal_strlit("type");
        reveal_strlit("id");
        reveal_strlit("title");
        reveal_strlit("date_creation");
        reveal_strlit("date_modification");
        reveal_strlit("statut");
        reveal_strlit("tags");
        reveal_strlit("source_media");
    }
    assert("note_type"@ =~= key_note_type());
    assert("type"@ =~= key_type_alias());
    assert("id"@ =~= key_id());
    assert("title"@ =~= title_key());
    assert("date_creation"@ =~= key_date_creation());
    assert("date_modification"@ =~= key_date_modification());
    assert("statut"@ =~= key_statut());
    assert("tags"@ =~= key_tags());
    assert("source_media"@ =~= key_source_media());
    let nt = find_entry(entries, "note_type");
    let alias = find_entry(entries, "type");
    if nt.is_some() && alias.is_some() {
        return None;
    }
    let note_type = if nt.is_some() {
        nt
    } else {
        alias
    };
    frontmatter_from_raw_fields(
        find_entry(entries, "id"),
        find_entry(entries, "title"),
        find_entry(entries, "date_creation"),
        find_entry(entries, "date_modification"),
        note_type,
        find_entry(entries, "statut"),
        find_entry(entries, "tags"),
        find_entry(entries, "source_media"),
    )
}

fn item(items: &Vec<String>, i: usize) -> (r: Option<String>)
    ensures
        opt_string_view(r) == item_at(strings_view(items@), i as int),
{
    if i < items.len() {
        Some(items[i].clone())
    } else {
        None
    }
}

/// Reads a front matter from the items of a JSON array.
pub fn frontmatter_from_array(items: &Vec<String>) -> (r: Option<NoteFrontmatter>)
    ensures
        opt_frontmatter_view(r) == frontmatter_from_items(strings_view(items@)),
{
    if items.len() > 8 {
        return None;
    }
    frontmatter_from_raw_fields(
        item(items, 0),
        item(items, 1),
        item(items, 2),
        item(items, 3),
        item(items, 4),
        item(items, 5),
        item(items, 6),
        item(items, 7),
    )
}

/// Reads the front matter recorded by the JSON text `text`.
pub fn frontmatter_from_json(text: &str) -> (r: Option<NoteFrontmatter>)
    ensures
        opt_frontmatter_view(r) == frontmatter_from_json_spec(text@),
{
    match read_object_entries(text) {
        Some(entries) => frontmatter_from_object(&entries),
        None => match read_array_items(text) {
            Some(items) => frontmatter_from_array(&items),
            None => None,
        },
    }
}

/// The message of the error reported for unreadable front matter.
pub open spec fn frontmatter_error_message() -> Seq<char> {
    "Échec de désérialisation du frontmatter YAML dans la note"@
}

/// Separates the YAML front matter of a Markdown note from its body.
///
/// A note without front matter gets the default front matter; the body
/// loses its leading line breaks. Front matter that does not read as a
/// [`NoteFrontmatter`] is reported as [`JeanneError::Frontmatter`].
pub fn parse_markdown(content: &str) -> (r: Result<(NoteFrontmatter, String), JeanneError>)
    ensures
        match r {
            Ok((fm, body)) => parsed_note(content@) == Some((fm@, body@)),
            Err(e) => {
                &&& parsed_note(content@) is None
                &&& e matches JeanneError::Frontmatter(m)
                &&& m@ == frontmatter_error_message()
            },
        },
{
    let (data, raw_body) = split_front_matter(content);
    match data {
        None => {
            let body = trim_start_newlines(raw_body.as_str());
            Ok((NoteFrontmatter::default(), body))
        },
        Some(json) => match frontmatter_from_json(json.as_str()) {
            Some(fm) => {
                let body = trim_start_newlines(raw_body.as_str());
                Ok((fm, body))
            },
            None => {
                let msg = "Échec de désérialisation du frontmatter YAML dans la note";
                Err(JeanneError::Frontmatter(String::from_str(msg)))
            },
        },
    }
}

/// Whether a key is one of the names the front matter reads.
pub open spec fn is_frontmatter_key(k: Seq<char>) -> bool {
    ||| k == key_id()
    ||| k == title_key()
    ||| k == key_date_creation()
    ||| k == key_date_modification()
    ||| k == key_note_type()
    ||| k == key_type_alias()
    ||| k == key_statut()
    ||| k == key_tags()
    ||| k == key_source_media()
}

proof fn lemma_lookup_absent(e: Seq<(Seq<char>, Seq<char>)>, key: Seq<char>)
    requires
        forall|i: int| 0 <= i < e.len() ==> (#[trigger] e[i]).0 != key,
    ensures
        lookup_entry(e, key) is None,
    decreases e.len(),
{
    if e.len() > 0 {
        assert(e[0].0 != key);
        assert forall|i: int| 0 <= i < e.drop_first().len() implies (#[trigger] e.drop_first()[i]).0
            != key by {
            assert(e.drop_first()[i] == e[i + 1]);
        }
        lemma_lookup_absent(e.drop_first(), key);
    }
}

/// Missing fields take their defaults: a front-matter object that names
/// none of the fields of the schema reads as the default front matter.
pub proof fn lemma_unnamed_fields_default(e: Seq<(Seq<char>, Seq<char>)>)
    requires
        forall|i: int| 0 <= i < e.len() ==> !is_frontmatter_key((#[trigger] e[i]).0),
    ensures
        frontmatter_from_entries(e) == Some(default_frontmatter_view()),
{
    lemma_lookup_absent(e, key_id());
    lemma_lookup_absent(e, title_key());
    lemma_lookup_absent(e, key_date_creation());
    lemma_lookup_absent(e, key_date_modification());
    lemma_lookup_absent(e, key_note_type());
    lemma_lookup_absent(e, key_type_alias());
    lemma_lookup_absent(e, key_statut());
    lemma_lookup_absent(e, key_tags());
    lemma_lookup_absent(e, key_source_media());
}

/// The body of a read note starts with neither `\r` nor `\n`, and a note
/// without front matter reads with the default front matter.
pub proof fn lemma_parsed_body_clean(content: Seq<char>)
    ensures
        parsed_note(content) matches Some((fm, body)) ==> body.len() == 0 || (body[0] != '\r'
            && body[0] != '\n'),
        front_matter_of(content).0 is None ==> parsed_note(content) == Some(
            (default_frontmatter_view(), trim_leading_newlines(front_matter_of(content).1)),
        ),
{
    crate::text::lemma_trim_leading_newlines_first(front_matter_of(content).1);
}

} // verus!
