//! JSON as the library reads and writes it.
//!
//! Reading and quoting JSON is `serde_json`'s work; the results of its calls
//! are named by the uninterpreted functions below, and the library composes
//! them: it looks fields up in a JSON object, and it frames the JSON object
//! that records a note's front matter.
use vstd::prelude::*;

use crate::models::{opt_string_view, strings_view, FrontmatterView, NoteFrontmatter};
use crate::text::{chars_of, string_of};
use crate::vault::hex_digit;

verus! {

/// What `serde_json::from_str::<BTreeMap<String, Value>>` reads from `text`:
/// the entries of the JSON object in key order, each value given as its
/// compact JSON text (`Value::to_string`); `None` when `text` is not a JSON object.
pub uninterp spec fn json_object_entries_of(text: Seq<char>) -> Option<Seq<(Seq<char>, Seq<char>)>>;

/// What `serde_json::from_str::<Vec<Value>>` reads from `text`: the items of
/// the JSON array, each as its compact JSON text; `None` when `text` is not a JSON array.
pub uninterp spec fn json_array_items_of(text: Seq<char>) -> Option<Seq<Seq<char>>>;

/// What `serde_json::from_str::<String>` reads from `text`.
pub uninterp spec fn json_string_of(text: Seq<char>) -> Option<Seq<char>>;

/// What `serde_json::from_str::<Vec<String>>` reads from `text`.
pub uninterp spec fn json_string_list_of(text: Seq<char>) -> Option<Seq<Seq<char>>>;

/// What `serde_json::from_str::<Option<String>>` reads from `text`.
pub uninterp spec fn json_optional_string_of(text: Seq<char>) -> Option<Option<Seq<char>>>;

/// How `serde_json` writes one character inside a string literal: `"` and
/// `\` after a backslash; backspace, tab, line feed, form feed and carriage
/// return as `\b`, `\t`, `\n`, `\f`, `\r`; the other control characters
/// below U+0020 as `\u00` and two lower-case hexadecimal digits; any other
/// character as itself.
pub open spec fn json_escaped_char(c: char) -> Seq<char> {
    if c == '"' {
        seq!['\\', '"']
    } else if c == '\\' {
        seq!['\\', '\\']
    } else if c == '\u{8}' {
        seq!['\\', 'b']
    } else if c == '\t' {
        seq!['\\', 't']
    } else if c == '\n' {
        seq!['\\', 'n']
    } else if c == '\u{c}' {
        seq!['\\', 'f']
    } else if c == '\r' {
        seq!['\\', 'r']
    } else if (c as u32) < 0x20 {
        seq!['\\', 'u', '0', '0', hex_digit((c as u32 / 16) as nat), hex_digit((c as u32 % 16) as nat)]
    } else {
        seq![c]
    }
}

/// The characters of `s` as written inside a JSON string literal.
pub open spec fn json_escaped(s: Seq<char>) -> Seq<char>
    decreases s.len(),
{
    if s.len() == 0 {
        Seq::empty()
    } else {
        json_escaped(s.drop_last()) + json_escaped_char(s.last())
    }
}

/// What `serde_json::to_string` makes of the string `s`: its JSON string
/// literal, between double quotes. Writing a string never fails, so this is
/// always `Some`.
pub open spec fn json_quoted(s: Seq<char>) -> Option<Seq<char>> {
    Some(seq!['"'] + json_escaped(s) + seq!['"'])
}

/// The views of a list of string pairs.
pub open spec fn pairs_view(v: Seq<(String, String)>) -> Seq<(Seq<char>, Seq<char>)> {
    v.map_values(|p: (String, String)| (p.0@, p.1@))
}

/// Reads `text` as a JSON object with `serde_json::from_str` into a
/// `BTreeMap<String, Value>`, each value written back with `Value::to_string`.
/// Claims only that the result is [`json_object_entries_of`] of the text.
#[verifier::external_body]
pub(crate) fn read_object_entries(text: &str) -> (r: Option<Vec<(String, String)>>)
    ensures
        json_object_entries_of(text@) == (match r {
            Some(v) => Some(pairs_view(v@)),
            None => None,
        }),
{
    serde_json::from_str::<std::collections::BTreeMap<String, serde_json::Value>>(text).ok().map(
        |m| m.into_iter().map(|(k, v)| (k, v.to_string())).collect(),
    )
}

/// Reads `text` as a JSON array with `serde_json::from_str` into a
/// `Vec<Value>`, each item written back with `Value::to_string`.
/// Claims only that the result is [`json_array_items_of`] of the text.
#[verifier::external_body]
pub(crate) fn read_array_items(text: &str) -> (r: Option<Vec<String>>)
    ensures
        json_array_items_of(text@) == (match r {
            Some(v) => Some(strings_view(v@)),
            None => None,
        }),
{
    serde_json::from_str::<Vec<serde_json::Value>>(text).ok().map(
        |v| v.into_iter().map(|x| x.to_string()).collect(),
    )
}

/// Reads `text` with `serde_json::from_str::<String>`.
/// Claims only that the result is [`json_string_of`] of the text.
#[verifier::external_body]
pub(crate) fn read_string(text: &str) -> (r: Option<String>)
    ensures
        json_string_of(text@) == opt_string_view(r),
{
    serde_json::from_str::<String>(text).ok()
}

/// Reads `text` with `serde_json::from_str::<Vec<String>>`.
/// Claims only that the result is [`json_string_list_of`] of the text.
#[verifier::external_body]
pub(crate) fn read_string_list(text: &str) -> (r: Option<Vec<String>>)
    ensures
        json_string_list_of(text@) == (match r {
            Some(v) => Some(strings_view(v@)),
            None => None,
        }),
{
    serde_json::from_str::<Vec<String>>(text).ok()
}

/// Reads `text` with `serde_json::from_str::<Option<String>>`.
/// Claims only that the result is [`json_optional_string_of`] of the text.
#[verifier::external_body]
pub(crate) fn read_optional_string(text: &str) -> (r: Option<Option<String>>)
    ensures
        json_optional_string_of(text@) == (match r {
            Some(o) => Some(opt_string_view(o)),
            None => None,
        }),
{
    serde_json::from_str::<Option<String>>(text).ok()
}

/// The value recorded under `key` in a list of entries: the first entry
/// with that key.
pub open spec fn lookup_entry(entries: Seq<(Seq<char>, Seq<char>)>, key: Seq<char>) -> Option<
    Seq<char>,
>
    decreases entries.len(),
{
    if entries.len() == 0 {
        None
    } else if entries[0].0 == key {
        Some(entries[0].1)
    } else {
        lookup_entry(entries.drop_first(), key)
    }
}

proof fn lemma_lookup_entry_index(entries: Seq<(Seq<char>, Seq<char>)>, key: Seq<char>, i: int)
    requires
        0 <= i <= entries.len(),
        forall|k: int| 0 <= k < i ==> entries[k].0 != key,
    ensures
        lookup_entry(entries, key) == lookup_entry(entries.subrange(i, entries.len() as int), key),
    decreases i,
{
    if i > 0 {
        assert(entries.drop_first().subrange(i - 1, entries.drop_first().len() as int)
            =~= entries.subrange(i, entries.len() as int));
        lemma_lookup_entry_index(entries.drop_first(), key, i - 1);
    } else {
        assert(entries.subrange(0, entries.len() as int) =~= entries);
    }
}

/// Looks `key` up in a list of entries.
pub fn find_entry(entries: &Vec<(String, String)>, key: &str) -> (r: Option<String>)
    ensures
        opt_string_view(r) == lookup_entry(pairs_view(entries@), key@),
{
    let k = String::from_str(key);
    let ghost pv = pairs_view(entries@);
    let mut i: usize = 0;
    while i < entries.len()
        invariant
            i <= entries.len(),
            pv == pairs_view(entries@),
            k@ == key@,
            forall|j: int| 0 <= j < i ==> pv[j].0 != key@,
        decreases entries.len() - i,
    {
        if entries[i].0 == k {
            proof {
                lemma_lookup_entry_index(pv, key@, i as int);
                assert(pv.subrange(i as int, pv.len() as int)[0] == pv[i as int]);
            }
            return Some(entries[i].1.clone());
        }
        i = i + 1;
    }
    proof {
        lemma_lookup_entry_index(pv, key@, i as int);
    }
    None
}

/// The JSON text of the key `"title"`.
pub open spec fn title_key() -> Seq<char> {
    seq!['t', 'i', 't', 'l', 'e']
}

/// The title recorded in a JSON object: the string under `"title"`, if the
/// text is an object and that value is a string.
pub open spec fn json_title_of(json: Seq<char>) -> Option<Seq<char>> {
    match json_object_entries_of(json) {
        Some(entries) => match lookup_entry(entries, title_key()) {
            Some(raw) => json_string_of(raw),
            None => None,
        },
        None => None,
    }
}

/// Reads the title recorded in the JSON object `json`.
pub fn title_from_json(json: &str) -> (r: Option<String>)
    ensures
        opt_string_view(r) == json_title_of(json@),
{
    let key = "title";
    proof {
        reveal_strlit("title");
    }
    assert(key@ =~= title_key());
    match read_object_entries(json) {
        Some(entries) => match find_entry(&entries, key) {
            Some(raw) => read_string(raw.as_str()),
            None => None,
        },
        None => None,
    }
}

/// The JSON literals of a list of strings.
pub open spec fn quoted_all(ss: Seq<Seq<char>>) -> Option<Seq<Seq<char>>>
    decreases ss.len(),
{
    if ss.len() == 0 {
        Some(Seq::empty())
    } else {
        match (quoted_all(ss.drop_last()), json_quoted(ss.last())) {
            (Some(qs), Some(q)) => Some(qs.push(q)),
            _ => None,
        }
    }
}

/// Every list of strings can be written as JSON literals.
proof fn lemma_quoted_all_some(ss: Seq<Seq<char>>)
    ensures
        quoted_all(ss) is Some,
    decreases ss.len(),
{
    if ss.len() > 0 {
        lemma_quoted_all_some(ss.drop_last());
    }
}

/// JSON texts separated by commas.
pub open spec fn comma_joined(items: Seq<Seq<char>>) -> Seq<char>
    decreases items.len(),
{
    if items.len() == 0 {
        Seq::empty()
    } else if items.len() == 1 {
        items[0]
    } else {
        comma_joined(items.drop_last()) + seq![','] + items.last()
    }
}

/// The JSON literal of `"key":` for a field name, opened by `{` for the
/// first field and by `,` for the others.
pub open spec fn key_prefix(first: bool, key: Seq<char>) -> Seq<char> {
    (if first {
        seq!['{']
    } else {
        seq![',']
    }) + seq!['"'] + key + seq!['"', ':']
}

/// Field names of the front-matter record, in declaration order.
pub open spec fn key_id() -> Seq<char> {
    seq!['i', 'd']
}

pub open spec fn key_date_creation() -> Seq<char> {
    seq!['d', 'a', 't', 'e', '_', 'c', 'r', 'e', 'a', 't', 'i', 'o', 'n']
}

pub open spec fn key_date_modification() -> Seq<char> {
    seq!['d', 'a', 't', 'e', '_', 'm', 'o', 'd', 'i', 'f', 'i', 'c', 'a', 't', 'i', 'o', 'n']
}

pub open spec fn key_note_type() -> Seq<char> {
    seq!['n', 'o', 't', 'e', '_', 't', 'y', 'p', 'e']
}

pub open spec fn key_statut() -> Seq<char> {
    seq!['s', 't', 'a', 't', 'u', 't']
}

pub open spec fn key_tags() -> Seq<char> {
    seq!['t', 'a', 'g', 's']
}

pub open spec fn key_source_media() -> Seq<char> {
    seq!['s', 'o', 'u', 'r', 'c', 'e', '_', 'm', 'e', 'd', 'i', 'a']
}

/// `"key":value` for a text field.
pub open spec fn text_field(first: bool, key: Seq<char>, value: Seq<char>) -> Option<Seq<char>> {
    match json_quoted(value) {
        Some(q) => Some(key_prefix(first, key) + q),
        None => None,
    }
}

/// The first six fields of the record (the text fields), opened by `{`.
pub open spec fn text_fields_json(fm: FrontmatterView) -> Option<Seq<char>> {
    match (
        text_field(true, key_id(), fm.id),
        text_field(false, title_key(), fm.title),
        text_field(false, key_date_creation(), fm.date_creation),
        text_field(false, key_date_modification(), fm.date_modification),
        text_field(false, key_note_type(), fm.note_type),
        text_field(false, key_statut(), fm.statut),
    ) {
        (Some(a), Some(b), Some(c), Some(d), Some(e), Some(f)) => Some(a + b + c + d + e + f),
        _ => None,
    }
}

/// The JSON array of a list of strings.
pub open spec fn string_array_json(ss: Seq<Seq<char>>) -> Option<Seq<char>> {
    match quoted_all(ss) {
        Some(q) => Some(seq!['['] + comma_joined(q) + seq![']']),
        None => None,
    }
}

/// The JSON value of an optional string: its literal, or `null`.
pub open spec fn optional_string_json(o: Option<Seq<char>>) -> Option<Seq<char>> {
    match o {
        Some(s) => json_quoted(s),
        None => Some(seq!['n', 'u', 'l', 'l']),
    }
}

/// The JSON object that records a front matter, field by field in
/// declaration order (the compact form `serde_json::to_string` writes for
/// the structure); always `Some`, as every string can be written.
pub open spec fn frontmatter_json_of(fm: FrontmatterView) -> Option<Seq<char>> {
    match (
        text_fields_json(fm),
        string_array_json(fm.tags),
        optional_string_json(fm.source_media),
    ) {
        (Some(t), Some(a), Some(m)) => Some(
            t + key_prefix(false, key_tags()) + a + key_prefix(false, key_source_media()) + m
                + seq!['}'],
        ),
        _ => None,
    }
}

/// The lower-case hexadecimal digit of `d < 16`.
fn hex_char(d: u32) -> (c: char)
    requires
        d < 16,
    ensures
        c == hex_digit(d as nat),
{
    if d < 10 {
        ((d + 48) as u8) as char
    } else {
        ((d + 87) as u8) as char
    }
}

/// Appends one character, as written inside a JSON string literal.
fn push_escaped_char(acc: &mut Vec<char>, c: char)
    ensures
        final(acc)@ == old(acc)@ + json_escaped_char(c),
{
    let ghost before = acc@;
    if c == '"' || c == '\\' {
        acc.push('\\');
        acc.push(c);
    } else if c == '\u{8}' {
        acc.push('\\');
        acc.push('b');
    } else if c == '\t' {
        acc.push('\\');
        acc.push('t');
    } else if c == '\n' {
        acc.push('\\');
        acc.push('n');
    } else if c == '\u{c}' {
        acc.push('\\');
        acc.push('f');
    } else if c == '\r' {
        acc.push('\\');
        acc.push('r');
    } else if (c as u32) < 0x20 {
        let n: u32 = c as u32;
        acc.push('\\');
        acc.push('u');
        acc.push('0');
        acc.push('0');
        acc.push(hex_char(n / 16));
        acc.push(hex_char(n % 16));
    } else {
        acc.push(c);
    }
    assert(acc@ =~= before + json_escaped_char(c));
}

/// Writes one string as a JSON literal, appending it to `out`.
fn push_quoted(out: &mut String, s: &String) -> (ok: bool)
    ensures
        ok == (json_quoted(s@) is Some),
        ok ==> final(out)@ == old(out)@ + json_quoted(s@)->Some_0,
{
    let v = chars_of(s.as_str());
    let mut acc: Vec<char> = Vec::new();
    acc.push('"');
    let mut i: usize = 0;
    while i < v.len()
        invariant
            i <= v.len(),
            v@ == s@,
            acc@ == seq!['"'] + json_escaped(v@.take(i as int)),
        decreases v.len() - i,
    {
        assert(v@.take(i + 1).drop_last() =~= v@.take(i as int));
        push_escaped_char(&mut acc, v[i]);
        i = i + 1;
        assert(acc@ =~= seq!['"'] + json_escaped(v@.take(i as int)));
    }
    assert(v@.take(v.len() as int) =~= v@);
    acc.push('"');
    let q = string_of(acc.as_slice());
    out.append(q.as_str());
    true
}

/// Appends `"key":` (after `{` or `,`) to `out`.
fn push_key(out: &mut String, first: bool, key: &str)
    ensures
        final(out)@ == old(out)@ + key_prefix(first, key@),
{
    let open = if first {
        "{\""
    } else {
        ",\""
    };
    let close = "\":";
    proof {
        reveal_strlit("{\"");
        reveal_strlit(",\"");
        reveal_strlit("\":");
    }
    out.append(open);
    out.append(key);
    out.append(close);
    assert(final(out)@ =~= old(out)@ + key_prefix(first, key@));
}

/// Appends `"key":` and the JSON literal of `value` to `out`.
fn push_text_field(out: &mut String, first: bool, key: &str, value: &String) -> (ok: bool)
    ensures
        ok == (text_field(first, key@, value@) is Some),
        ok ==> final(out)@ == old(out)@ + text_field(first, key@, value@)->Some_0,
{
    push_key(out, first, key);
    let ok = push_quoted(out, value);
    proof {
        if ok {
            assert(final(out)@ =~= old(out)@ + text_field(first, key@, value@)->Some_0);
        }
    }
    ok
}

/// Appends the six text fields of `fm` to `out`.
fn push_text_fields(out: &mut String, fm: &NoteFrontmatter) -> (ok: bool)
    ensures
        ok == (text_fields_json(fm@) is Some),
        ok ==> final(out)@ == old(out)@ + text_fields_json(fm@)->Some_0,
{
    proof {
        reveal_strlit("id");
        reveal_strlit("title");
        reveal_strlit("date_creation");
        reveal_strlit("date_modification");
        reveal_strlit("note_type");
        reveal_strlit("statut");
    }
    let ghost v = fm@;
    let ghost s0 = out@;
    if !push_text_field(out, true, "id", &fm.id) {
        assert("id"@ =~= key_id());
        return false;
    }
    assert("id"@ =~= key_id());
    let ghost a = text_field(true, key_id(), v.id)->Some_0;
    if !push_text_field(out, false, "title", &fm.title) {
        assert("title"@ =~= title_key());
        return false;
    }
    assert("title"@ =~= title_key());
    let ghost b = text_field(false, title_key(), v.title)->Some_0;
    if !push_text_field(out, false, "date_creation", &fm.date_creation) {
        assert("date_creation"@ =~= key_date_creation());
        return false;
    }
    assert("date_creation"@ =~= key_date_creation());
    let ghost c = text_field(false, key_date_creation(), v.date_creation)->Some_0;
    if !push_text_field(out, false, "date_modification", &fm.date_modification) {
        assert("date_modification"@ =~= key_date_modification());
        return false;
    }
    assert("date_modification"@ =~= key_date_modification());
    let ghost d = text_field(false, key_date_modification(), v.date_modification)->Some_0;
    if !push_text_field(out, false, "note_type", &fm.note_type) {
        assert("note_type"@ =~= key_note_type());
        return false;
    }
    assert("note_type"@ =~= key_note_type());
    let ghost e = text_field(false, key_note_type(), v.note_type)->Some_0;
    if !push_text_field(out, false, "statut", &fm.statut) {
        assert("statut"@ =~= key_statut());
        return false;
    }
    assert("statut"@ =~= key_statut());
    let ghost f = text_field(false, key_statut(), v.statut)->Some_0;
    assert(out@ =~= s0 + (a + b + c + d + e + f));
    true
}

/// Appends the JSON array of the strings `tags` to `out`.
fn push_tag_list(out: &mut String, tags: &Vec<String>) -> (ok: bool)
    ensures
        ok == (string_array_json(strings_view(tags@)) is Some),
        ok ==> final(out)@ == old(out)@ + string_array_json(strings_view(tags@))->Some_0,
{
    let open = "[";
    let close = "]";
    let comma = ",";
    proof {
        reveal_strlit("[");
        reveal_strlit("]");
        reveal_strlit(",");
    }
    let ghost start = out@;
    out.append(open);
    assert(comma@ =~= seq![',']);
    let ghost mut qs: Seq<Seq<char>> = Seq::empty();
    assert(strings_view(tags@).subrange(0, 0) =~= Seq::<Seq<char>>::empty());
    let mut i: usize = 0;
    while i < tags.len()
        invariant
            i <= tags.len(),
            quoted_all(strings_view(tags@).subrange(0, i as int)) == Some(qs),
            out@ == start + seq!['['] + comma_joined(qs),
            qs.len() == i,
            start == old(out)@,
            comma@ == seq![','],
        decreases tags.len() - i,
    {
        proof {
            let sv = strings_view(tags@);
            assert(sv.subrange(0, i + 1).drop_last() =~= sv.subrange(0, i as int));
            assert(sv.subrange(0, i + 1).last() == tags@[i as int]@);
        }
        let ghost before = out@;
        if i > 0 {
            out.append(comma);
        }
        let ghost mid = out@;
        let ok = push_quoted(out, &tags[i]);
        if !ok {
            proof {
                lemma_quoted_all_prefix(strings_view(tags@), (i + 1) as int);
            }
            return false;
        }
        proof {
            let q = json_quoted(tags@[i as int]@)->Some_0;
            let nqs = qs.push(q);
            assert(nqs.drop_last() =~= qs);
            assert(nqs.last() == q);
            if i == 0 {
                assert(comma_joined(nqs) == q);
                assert(comma_joined(qs) =~= Seq::<char>::empty());
                assert(out@ =~= start + seq!['['] + comma_joined(nqs));
            } else {
                assert(comma_joined(nqs) == comma_joined(qs) + seq![','] + q);
                assert(mid =~= before + seq![',']);
                assert(out@ =~= start + seq!['['] + comma_joined(nqs));
            }
            qs = nqs;
        }
        i = i + 1;
    }
    out.append(close);
    assert(strings_view(tags@).subrange(0, tags.len() as int) =~= strings_view(tags@));
    assert(out@ =~= start + (seq!['['] + comma_joined(qs) + seq![']']));
    true
}

proof fn lemma_quoted_all_prefix(ss: Seq<Seq<char>>, n: int)
    requires
        0 <= n <= ss.len(),
        quoted_all(ss.subrange(0, n)) is None,
    ensures
        quoted_all(ss) is None,
    decreases ss.len() - n,
{
    if n < ss.len() {
        assert(ss.subrange(0, n + 1).drop_last() =~= ss.subrange(0, n));
        lemma_quoted_all_prefix(ss, n + 1);
    } else {
        assert(ss.subrange(0, n) =~= ss);
    }
}

/// The JSON object recording `fm`, as the index stores it (always present:
/// every string can be written as JSON).
pub fn frontmatter_json(fm: &NoteFrontmatter) -> (r: Option<String>)
    ensures
        opt_string_view(r) == frontmatter_json_of(fm@),
        r is Some,
{
    proof {
        lemma_quoted_all_some(fm@.tags);
    }
    let mut out = String::new();
    if !push_text_fields(&mut out, fm) {
        return None;
    }
    let ghost t = out@;
    proof {
        reveal_strlit("tags");
        reveal_strlit("source_media");
    }
    push_key(&mut out, false, "tags");
    assert("tags"@ =~= key_tags());
    if !push_tag_list(&mut out, &fm.tags) {
        return None;
    }
    let ghost ta = out@;
    push_key(&mut out, false, "source_media");
    assert("source_media"@ =~= key_source_media());
    match &fm.source_media {
        Some(s) => {
            if !push_quoted(&mut out, s) {
                return None;
            }
        },
        None => {
            let null = "null";
            proof {
                reveal_strlit("null");
            }
            out.append(null);
        },
    }
    let close = "}";
    proof {
        reveal_strlit("}");
    }
    out.append(close);
    assert(out@ =~= frontmatter_json_of(fm@)->Some_0);
    Some(out)
}

} // verus!
