//! Keeping the index in step with the vault: the paths of notes relative to
//! the vault, what a batch of changed paths asks of the index, and the
//! transaction that applies it.
use vstd::prelude::*;

use crate::error::JeanneError;
use crate::json::frontmatter_json;
use crate::models::{
    default_frontmatter_view, opt_string_view, strings_view, FrontmatterView, IndexedChunk,
    NoteFrontmatter,
};
use crate::parser::{parse_markdown, parsed_note};
use crate::paths::{
    component_file_name, components_file_name, components_start_with, components_starts_with,
    join_from, joined,
};
use crate::json::frontmatter_json_of;
use crate::sqlite::Issued;
use crate::storage::{
    added, all_ran, chunk_params_spec, extends, file_params_spec, lemma_all_ran_concat,
    lemma_run_one_more, lemma_stopped_concat, lemma_stopped_prefix, ran_in_order, stopped_at,
    db_unit, SqlStatement, SqlValueView, StorageManager, DELETE_FILE_SQL, UPSERT_CHUNK_SQL,
    UPSERT_FILE_SQL,
};
use crate::text::{
    chars_eq_ignore_ascii_case, chars_of, count_words, eq_ignore_ascii_case, trim_leading_slashes,
    trim_ws, word_count,
};

verus! {

/// `s` with every `\` turned into `/`.
pub open spec fn forward_slashes(s: Seq<char>) -> Seq<char> {
    s.map_values(|c: char|
        if c == '\\' {
            '/'
        } else {
            c
        })
}

/// The text of a relative path made of `parts`: joined by `/`, backslashes
/// turned into `/`, leading `/` removed.
pub open spec fn rel_text(parts: Seq<Seq<char>>) -> Seq<char> {
    trim_leading_slashes(forward_slashes(joined(parts)))
}

/// The path of `file` relative to `vault`, when `file` lies under `vault`
/// and the relative path is not empty.
pub open spec fn rel_within(vault: Seq<Seq<char>>, file: Seq<Seq<char>>) -> Option<Seq<char>> {
    if components_start_with(file, vault) {
        let t = rel_text(file.subrange(vault.len() as int, file.len() as int));
        if t.len() > 0 {
            Some(t)
        } else {
            None
        }
    } else {
        None
    }
}

/// The path of `file` relative to `vault` when the leading components of
/// `file` match those of `vault` up to ASCII case and some remain.
pub open spec fn rel_ignoring_case(vault: Seq<Seq<char>>, file: Seq<Seq<char>>) -> Option<
    Seq<char>,
> {
    if file.len() > vault.len() && (forall|i: int|
        0 <= i < vault.len() ==> #[trigger] eq_ignore_ascii_case(file[i], vault[i])) {
        let j = joined(file.subrange(vault.len() as int, file.len() as int));
        if j.len() > 0 {
            Some(j)
        } else {
            None
        }
    } else {
        None
    }
}

/// The path, relative to the vault, under which a changed file is indexed:
/// its path under the vault as given, else under the canonical forms of
/// both paths, else under the vault up to ASCII case, else its file name.
pub open spec fn normalized_rel_path(
    vault: Seq<Seq<char>>,
    file: Seq<Seq<char>>,
    canonical: Option<(Seq<Seq<char>>, Seq<Seq<char>>)>,
) -> Option<Seq<char>> {
    match rel_within(vault, file) {
        Some(t) => Some(t),
        None => match (match canonical {
            Some((cv, cf)) => rel_within(cv, cf),
            None => None,
        }) {
            Some(t) => Some(t),
            None => match rel_ignoring_case(vault, file) {
                Some(j) => Some(j),
                None => components_file_name(file),
            },
        },
    }
}

proof fn lemma_trim_leading_slashes_first(s: Seq<char>)
    ensures
        trim_leading_slashes(s).len() == 0 || trim_leading_slashes(s)[0] != '/',
    decreases s.len(),
{
    if s.len() > 0 && s[0] == '/' {
        lemma_trim_leading_slashes_first(s.drop_first());
    }
}

/// A path found under the vault is relative: it is not empty and does not
/// start with `/`.
pub proof fn lemma_rel_path_is_relative(vault: Seq<Seq<char>>, file: Seq<Seq<char>>)
    ensures
        rel_within(vault, file) matches Some(t) ==> t.len() > 0 && t[0] != '/',
{
    if components_start_with(file, vault) {
        lemma_trim_leading_slashes_first(
            forward_slashes(joined(file.subrange(vault.len() as int, file.len() as int))),
        );
    }
}

/// Components that make a clean relative path: at least one, each a plain
/// name (not empty, not `.` or `..`, without `/` or `\`).
pub open spec fn clean_rel_components(rel: Seq<Seq<char>>) -> bool {
    &&& rel.len() > 0
    &&& forall|i: int|
        0 <= i < rel.len() ==> {
            &&& (#[trigger] rel[i]).len() > 0
            &&& rel[i] != seq!['.']
            &&& rel[i] != seq!['.', '.']
            &&& forall|k: int| 0 <= k < rel[i].len() ==> rel[i][k] != '/' && rel[i][k] != '\\'
        }
}

proof fn lemma_joined_no_backslash(parts: Seq<Seq<char>>)
    requires
        forall|i: int, k: int|
            0 <= i < parts.len() && 0 <= k < parts[i].len() ==> #[trigger] parts[i][k] != '\\',
    ensures
        forall|k: int| 0 <= k < joined(parts).len() ==> #[trigger] joined(parts)[k] != '\\',
    decreases parts.len(),
{
    if parts.len() == 1 {
        assert forall|k: int| 0 <= k < joined(parts).len() implies #[trigger] joined(parts)[k]
            != '\\' by {
            assert(parts[0][k] != '\\');
        }
    } else if parts.len() > 1 {
        let init = parts.drop_last();
        assert forall|i: int, k: int|
            0 <= i < init.len() && 0 <= k < init[i].len() implies #[trigger] init[i][k] != '\\' by {
            assert(init[i] == parts[i]);
            assert(parts[i][k] != '\\');
        }
        lemma_joined_no_backslash(init);
        let a = joined(init);
        let l = parts.last();
        assert forall|k: int| 0 <= k < joined(parts).len() implies #[trigger] joined(parts)[k]
            != '\\' by {
            if k < a.len() {
                assert(joined(parts)[k] == a[k]);
            } else if k > a.len() {
                assert(joined(parts)[k] == l[k - a.len() - 1]);
                assert(parts[parts.len() - 1][k - a.len() - 1] != '\\');
            }
        }
    }
}

proof fn lemma_joined_first(parts: Seq<Seq<char>>)
    requires
        parts.len() > 0,
        parts[0].len() > 0,
    ensures
        joined(parts).len() > 0,
        joined(parts)[0] == parts[0][0],
    decreases parts.len(),
{
    if parts.len() > 1 {
        assert(parts.drop_last()[0] == parts[0]);
        lemma_joined_first(parts.drop_last());
    }
}

/// A vault path joined with a clean relative path gives that relative path
/// back: a file whose components are the vault's followed by clean
/// components `rel` is indexed under `rel` joined by `/`.
pub proof fn lemma_rel_path_round_trip(
    vault: Seq<Seq<char>>,
    rel: Seq<Seq<char>>,
    canonical: Option<(Seq<Seq<char>>, Seq<Seq<char>>)>,
)
    requires
        clean_rel_components(rel),
    ensures
        normalized_rel_path(vault, vault + rel, canonical) == Some(joined(rel)),
{
    let file = vault + rel;
    assert(file.subrange(0, vault.len() as int) =~= vault);
    assert(file.subrange(vault.len() as int, file.len() as int) =~= rel);
    assert forall|i: int, k: int| 0 <= i < rel.len() && 0 <= k < rel[i].len() implies #[trigger] rel[i][k]
        != '\\' by {
        assert(rel[i].len() > 0);
    }
    lemma_joined_no_backslash(rel);
    assert(rel[0].len() > 0);
    lemma_joined_first(rel);
    let j = joined(rel);
    assert(forward_slashes(j) =~= j);
    assert(j[0] != '/') by {
        assert(rel[0][0] != '/');
    }
    assert(trim_leading_slashes(j) == j);
}

/// The views of an optional pair of component lists.
pub open spec fn canonical_view(c: Option<(Vec<String>, Vec<String>)>) -> Option<
    (Seq<Seq<char>>, Seq<Seq<char>>),
> {
    match c {
        Some((v, f)) => Some((strings_view(v@), strings_view(f@))),
        None => None,
    }
}

fn forward_and_trim(s: &String) -> (r: String)
    ensures
        r@ == trim_leading_slashes(forward_slashes(s@)),
{
    let v = chars_of(s.as_str());
    let mut out: Vec<char> = Vec::new();
    let mut i: usize = 0;
    while i < v.len()
        invariant
            i <= v.len(),
            v@ == s@,
            out@ == forward_slashes(v@.subrange(0, i as int)),
        decreases v.len() - i,
    {
        let c = if v[i] == '\\' {
            '/'
        } else {
            v[i]
        };
        out.push(c);
        i = i + 1;
        assert(out@ =~= forward_slashes(v@.subrange(0, i as int)));
    }
    assert(v@.subrange(0, v.len() as int) =~= v@);
    let ghost f = out@;
    let mut lo: usize = 0;
    assert(f.subrange(0, f.len() as int) =~= f);
    while lo < out.len() && out[lo] == '/'
        invariant
            lo <= out.len(),
            f == out@,
            trim_leading_slashes(f) == trim_leading_slashes(f.subrange(lo as int, f.len() as int)),
        decreases out.len() - lo,
    {
        assert(f.subrange(lo as int, f.len() as int).drop_first() =~= f.subrange(
            lo + 1,
            f.len() as int,
        ));
        lo = lo + 1;
    }
    crate::text::string_of_range(&out, lo, out.len())
}

fn rel_within_exec(vault: &Vec<String>, file: &Vec<String>) -> (r: Option<String>)
    ensures
        opt_string_view(r) == rel_within(strings_view(vault@), strings_view(file@)),
{
    if !components_starts_with(file, vault) {
        return None;
    }
    let j = join_from(file, vault.len());
    let t = forward_and_trim(&j);
    if t.as_str().is_empty() {
        None
    } else {
        Some(t)
    }
}

fn rel_ignoring_case_exec(vault: &Vec<String>, file: &Vec<String>) -> (r: Option<String>)
    ensures
        opt_string_view(r) == rel_ignoring_case(strings_view(vault@), strings_view(file@)),
{
    let ghost fv = strings_view(file@);
    let ghost vv = strings_view(vault@);
    if file.len() <= vault.len() {
        return None;
    }
    let mut i: usize = 0;
    while i < vault.len()
        invariant
            i <= vault.len() < file.len(),
            fv == strings_view(file@),
            vv == strings_view(vault@),
            forall|k: int| 0 <= k < i ==> #[trigger] eq_ignore_ascii_case(fv[k], vv[k]),
        decreases vault.len() - i,
    {
        let a = chars_of(file[i].as_str());
        let b = chars_of(vault[i].as_str());
        if !chars_eq_ignore_ascii_case(&a, &b) {
            assert(!eq_ignore_ascii_case(fv[i as int], vv[i as int]));
            return None;
        }
        i = i + 1;
    }
    let j = join_from(file, vault.len());
    if j.as_str().is_empty() {
        None
    } else {
        Some(j)
    }
}

/// The path, relative to the vault, under which the changed file `file`
/// is indexed (components as `Path::components` yields them; `canonical`
/// holds the canonical forms of the vault and of the file when both are
/// known).
pub fn normalize_rel_path(
    vault: &Vec<String>,
    file: &Vec<String>,
    canonical: &Option<(Vec<String>, Vec<String>)>,
) -> (r: Option<String>)
    ensures
        opt_string_view(r) == normalized_rel_path(
            strings_view(vault@),
            strings_view(file@),
            canonical_view(*canonical),
        ),
{
    if let Some(t) = rel_within_exec(vault, file) {
        return Some(t);
    }
    let via_canonical = match canonical {
        Some((cv, cf)) => rel_within_exec(cv, cf),
        None => None,
    };
    if let Some(t) = via_canonical {
        return Some(t);
    }
    if let Some(j) = rel_ignoring_case_exec(vault, file) {
        return Some(j);
    }
    component_file_name(file)
}

/// The `u64` that `std::hash::DefaultHasher` (as created by `new`) gives
/// for the string `content` hashed with `Hash::hash`.
pub uninterp spec fn content_hash_of(content: Seq<char>) -> u64;

/// Hashes `content` with a fresh `DefaultHasher::new()` (`Hash::hash`, then
/// `Hasher::finish`). Claims only that the result is the hash of the
/// content: every hasher made by `new` starts from the same keys, so equal
/// contents hash equally in a given build.
#[verifier::external_body]
fn hash_text(content: &str) -> (r: u64)
    ensures
        r == content_hash_of(content@),
{
    let mut hasher = std::collections::hash_map::DefaultHasher::new();
    std::hash::Hash::hash(content, &mut hasher);
    std::hash::Hasher::finish(&hasher)
}

/// The lower-case hexadecimal digit of `d < 16`.
pub open spec fn hex_digit(d: nat) -> char {
    if d < 10 {
        (d + 48) as char
    } else {
        (d + 87) as char
    }
}

/// The last `k` hexadecimal digits of `n`, most significant first
/// (`format!("{:0k$x}", n)` when `n` has at most `k` digits).
pub open spec fn hex_digits(n: nat, k: nat) -> Seq<char>
    decreases k,
{
    if k == 0 {
        Seq::empty()
    } else {
        hex_digits(n / 16, (k - 1) as nat) + seq![hex_digit(n % 16)]
    }
}

/// Whether `c` is a lower-case hexadecimal digit.
pub open spec fn is_lower_hex(c: char) -> bool {
    ('0' <= c && c <= '9') || ('a' <= c && c <= 'f')
}

proof fn lemma_hex_digits_shape(n: nat, k: nat)
    ensures
        hex_digits(n, k).len() == k,
        forall|i: int| 0 <= i < k ==> #[trigger] is_lower_hex(hex_digits(n, k)[i]),
    decreases k,
{
    if k > 0 {
        lemma_hex_digits_shape(n / 16, (k - 1) as nat);
        let d = n % 16;
        assert(is_lower_hex(hex_digit(d)));
        assert forall|i: int| 0 <= i < k implies #[trigger] is_lower_hex(hex_digits(n, k)[i]) by {
            if i < k - 1 {
                assert(hex_digits(n, k)[i] == hex_digits(n / 16, (k - 1) as nat)[i]);
            }
        }
    }
}

/// `format!("{:016x}", n)`: the 16 lower-case hexadecimal digits of `n`.
pub fn hex16(n: u64) -> (r: String)
    ensures
        r@ == hex_digits(n as nat, 16),
        r@.len() == 16,
        forall|i: int| 0 <= i < 16 ==> #[trigger] is_lower_hex(r@[i]),
{
    let mut acc: Vec<char> = Vec::new();
    let mut m: u64 = n;
    let mut k: u64 = 16;
    while k > 0
        invariant
            k <= 16,
            hex_digits(n as nat, 16) == hex_digits(m as nat, k as nat) + acc@,
        decreases k,
    {
        let d: u64 = m % 16;
        let c: char = if d < 10 {
            ((d + 48) as u8) as char
        } else {
            ((d + 87) as u8) as char
        };
        let ghost old_acc = acc@;
        acc.insert(0, c);
        assert(hex_digits(m as nat, k as nat) == hex_digits((m / 16) as nat, (k - 1) as nat) + seq![c]);
        assert(acc@ =~= seq![c] + old_acc);
        assert(hex_digits(m as nat, k as nat) + old_acc =~= hex_digits((m / 16) as nat, (k - 1) as nat) + acc@);
        m = m / 16;
        k = k - 1;
    }
    assert(hex_digits(m as nat, 0) =~= Seq::<char>::empty());
    assert(acc@ =~= hex_digits(n as nat, 16));
    proof {
        lemma_hex_digits_shape(n as nat, 16);
    }
    crate::text::string_of(acc.as_slice())
}

/// The hash recorded for a note's content: the `DefaultHasher` hash of the
/// content as 16 lower-case hexadecimal digits.
pub fn file_content_hash(content: &str) -> (r: String)
    ensures
        r@ == hex_digits(content_hash_of(content@) as nat, 16),
        r@.len() == 16,
        forall|i: int| 0 <= i < 16 ==> #[trigger] is_lower_hex(r@[i]),
{
    hex16(hash_text(content))
}

/// What a changed path turned out to be on disk.
pub enum PathProbe {
    /// A file, read as `content` at time `now` (Unix seconds).
    Readable { content: String, now: i64 },
    /// A file that could not be read as text.
    Unreadable,
    /// Nothing exists at the path any more.
    Missing,
    /// Something that is not a file (a directory).
    Other,
}

/// A note to re-index.
pub struct FileItem {
    pub rel_path: String,
    pub content: String,
    pub hash: String,
    pub now: i64,
}

/// What the batch asks of the index for one changed path: re-index the file
/// read there (with its hash), drop the file that is gone, or nothing.
pub open spec fn path_plan(rel: Option<Seq<char>>, probe: PathProbe) -> (Option<
    (Seq<char>, Seq<char>, Seq<char>, i64),
>, Option<Seq<char>>) {
    match rel {
        None => (None, None),
        Some(r) => match probe {
            PathProbe::Readable { content, now } => (
                Some((r, content@, hex_digits(content_hash_of(content@) as nat, 16), now)),
                None,
            ),
            PathProbe::Missing => (None, Some(r)),
            _ => (None, None),
        },
    }
}

/// The view of a file item.
pub open spec fn item_view(i: FileItem) -> (Seq<char>, Seq<char>, Seq<char>, i64) {
    (i.rel_path@, i.content@, i.hash@, i.now)
}

/// The notes to re-index for a batch, in order.
pub open spec fn planned_upserts(entries: Seq<(Option<String>, PathProbe)>) -> Seq<
    (Seq<char>, Seq<char>, Seq<char>, i64),
>
    decreases entries.len(),
{
    if entries.len() == 0 {
        Seq::empty()
    } else {
        let rest = planned_upserts(entries.drop_last());
        match path_plan(opt_string_view(entries.last().0), entries.last().1).0 {
            Some(u) => rest.push(u),
            None => rest,
        }
    }
}

/// The notes to drop from the index for a batch, in order.
pub open spec fn planned_deletes(entries: Seq<(Option<String>, PathProbe)>) -> Seq<Seq<char>>
    decreases entries.len(),
{
    if entries.len() == 0 {
        Seq::empty()
    } else {
        let rest = planned_deletes(entries.drop_last());
        match path_plan(opt_string_view(entries.last().0), entries.last().1).1 {
            Some(d) => rest.push(d),
            None => rest,
        }
    }
}

/// Sorts a batch of changed paths, each given with its path relative to
/// the vault (if any) and what is on disk there, into the notes to re-index
/// and the notes to drop. A path with no relative path is skipped.
pub fn plan_reconciliation(entries: &Vec<(Option<String>, PathProbe)>) -> (r: (
    Vec<FileItem>,
    Vec<String>,
))
    ensures
        r.0@.map_values(|i: FileItem| item_view(i)) == planned_upserts(entries@),
        strings_view(r.1@) == planned_deletes(entries@),
{
    let mut upserts: Vec<FileItem> = Vec::new();
    let mut deletes: Vec<String> = Vec::new();
    let mut i: usize = 0;
    while i < entries.len()
        invariant
            i <= entries.len(),
            upserts@.map_values(|it: FileItem| item_view(it)) == planned_upserts(
                entries@.subrange(0, i as int),
            ),
            strings_view(deletes@) == planned_deletes(entries@.subrange(0, i as int)),
        decreases entries.len() - i,
    {
        let ghost pre = entries@.subrange(0, i + 1);
        assert(pre.drop_last() =~= entries@.subrange(0, i as int));
        assert(pre.last() == entries@[i as int]);
        let ghost before_u = upserts@;
        let ghost before_d = deletes@;
        match &entries[i] {
            (Some(rel), PathProbe::Readable { content, now }) => {
                let hash = file_content_hash(content.as_str());
                upserts.push(
                    FileItem { rel_path: rel.clone(), content: content.clone(), hash, now: *now },
                );
                assert(upserts@.map_values(|it: FileItem| item_view(it)) =~= before_u.map_values(
                    |it: FileItem| item_view(it),
                ).push(item_view(upserts@.last())));
            },
            (Some(rel), PathProbe::Missing) => {
                deletes.push(rel.clone());
                assert(strings_view(deletes@) =~= strings_view(before_d).push(rel@));
            },
            _ => {},
        }
        i = i + 1;
    }
    assert(entries@.subrange(0, entries.len() as int) =~= entries@);
    (upserts, deletes)
}

/// A note's front matter and body: as read from its content, or, when its
/// front matter cannot be read, the default front matter and the whole content.
pub open spec fn note_of_content(content: Seq<char>) -> (FrontmatterView, Seq<char>) {
    match parsed_note(content) {
        Some(p) => p,
        None => (default_frontmatter_view(), content),
    }
}

/// Reads a note's front matter and body, falling back to the default front
/// matter and the whole content when the front matter cannot be read.
pub fn note_from_content(content: &String) -> (r: (NoteFrontmatter, String))
    ensures
        (r.0@, r.1@) == note_of_content(content@),
{
    match parse_markdown(content.as_str()) {
        Ok(p) => p,
        Err(_) => (NoteFrontmatter::default(), content.clone()),
    }
}

/// The id of the single chunk of a note: its relative path followed by `:0`.
pub open spec fn chunk_id_of(rel_path: Seq<char>) -> Seq<char> {
    rel_path + seq![':', '0']
}

/// The chunk that indexes a whole note: chunk 0 of the note's path, with
/// its body, word count, type and status, dated `now`.
pub open spec fn note_chunk_spec(
    rel_path: Seq<char>,
    body: Seq<char>,
    token_count: usize,
    fm: FrontmatterView,
    now: i64,
    c: IndexedChunk,
) -> bool {
    &&& c.chunk_id@ == chunk_id_of(rel_path)
    &&& c.file_path@ == rel_path
    &&& c.chunk_index == 0
    &&& c.content@ == body
    &&& c.token_count == token_count
    &&& c.note_type@ == fm.note_type
    &&& c.statut@ == fm.statut
    &&& c.date_creation == now
}

/// Builds the chunk that indexes a whole note.
pub fn note_chunk(
    rel_path: &String,
    body: String,
    token_count: usize,
    fm: &NoteFrontmatter,
    now: i64,
) -> (c: IndexedChunk)
    ensures
        note_chunk_spec(rel_path@, body@, token_count, fm@, now, c),
{
    let mut id = rel_path.clone();
    let suffix = ":0";
    proof {
        reveal_strlit(":0");
    }
    id.append(suffix);
    assert(id@ =~= chunk_id_of(rel_path@));
    IndexedChunk {
        chunk_id: id,
        file_path: rel_path.clone(),
        chunk_index: 0,
        content: body,
        token_count,
        note_type: fm.note_type.clone(),
        statut: fm.statut.clone(),
        date_creation: now,
    }
}

/// The front matter JSON as the optional text column of `files`.
fn as_opt_str(o: &Option<String>) -> (r: Option<&str>)
    ensures
        (match r {
            Some(s) => Some(s@),
            None => None,
        }) == opt_string_view(*o),
{
    match o {
        Some(s) => Some(s.as_str()),
        None => None,
    }
}

/// The statements that index a note at `rel_path`: its file row (hash,
/// date and front matter JSON), then its single chunk, with its body,
/// `token_count` words, type and status, dated `now`.
pub open spec fn indexing_statements(
    rel_path: Seq<char>,
    hash: Seq<char>,
    now: i64,
    fm: FrontmatterView,
    body: Seq<char>,
    token_count: usize,
) -> Seq<SqlStatement> {
    seq![
        (UPSERT_FILE_SQL@, file_params_spec(rel_path, hash, now, frontmatter_json_of(fm))),
        (
            UPSERT_CHUNK_SQL@,
            seq![
                SqlValueView::Text(chunk_id_of(rel_path)),
                SqlValueView::Text(rel_path),
                SqlValueView::Integer(0),
                SqlValueView::Text(body),
                SqlValueView::Integer(token_count as i64),
                SqlValueView::Text(fm.note_type),
                SqlValueView::Text(fm.statut),
                SqlValueView::Integer(now),
            ],
        ),
    ]
}

/// The statements that re-index a planned note: its front matter and body
/// read from its content, its planned hash and date, the words of its body.
pub open spec fn note_statements(item: (Seq<char>, Seq<char>, Seq<char>, i64)) -> Seq<
    SqlStatement,
> {
    let (fm, body) = note_of_content(item.1);
    indexing_statements(item.0, item.2, item.3, fm, body, word_count(body) as usize)
}

/// The views of planned notes.
pub open spec fn items_view(items: Seq<FileItem>) -> Seq<(Seq<char>, Seq<char>, Seq<char>, i64)> {
    items.map_values(|i: FileItem| item_view(i))
}

/// The statements that drop the given notes from the index, in order.
pub open spec fn delete_statements(paths: Seq<Seq<char>>) -> Seq<SqlStatement> {
    paths.map_values(|p: Seq<char>| (DELETE_FILE_SQL@, seq![SqlValueView::Text(p)]))
}

/// The statements that re-index the given notes, in order.
pub open spec fn upsert_statements(items: Seq<(Seq<char>, Seq<char>, Seq<char>, i64)>) -> Seq<
    SqlStatement,
>
    decreases items.len(),
{
    if items.len() == 0 {
        Seq::empty()
    } else {
        upsert_statements(items.drop_last()) + note_statements(items.last())
    }
}

/// The statements of a batch: the deletions, then the re-indexings.
pub open spec fn batch_statements(
    items: Seq<(Seq<char>, Seq<char>, Seq<char>, i64)>,
    paths: Seq<Seq<char>>,
) -> Seq<SqlStatement> {
    delete_statements(paths) + upsert_statements(items)
}

/// Opens the transaction of a batch, taking the write lock at once.
pub const BEGIN_SQL: &'static str = "BEGIN IMMEDIATE;";

/// Makes the changes of a batch durable, all together.
pub const COMMIT_SQL: &'static str = "COMMIT;";

/// Undoes every change of a batch.
pub const ROLLBACK_SQL: &'static str = "ROLLBACK;";

/// `h` records the transaction that applies `stmts`, and `r` is its result.
///
/// With nothing to apply, nothing is asked of SQLite. Otherwise the
/// transaction is opened (a failure there is returned at once); then the
/// statements run in order. When all succeed the transaction is committed
/// and the commit's outcome returned; at the first failure none after it
/// runs, the transaction is rolled back, and that failure is returned.
pub open spec fn transaction_history(
    stmts: Seq<SqlStatement>,
    h: Seq<Issued>,
    r: Result<(), JeanneError>,
) -> bool {
    if stmts.len() == 0 {
        h.len() == 0 && r is Ok
    } else {
        h.len() >= 1 && match h[0] {
            Issued::Batch { sql, outcome: Err(e) } => sql == BEGIN_SQL@ && h.len() == 1 && r
                == Err::<(), JeanneError>(JeanneError::Database(e)),
            Issued::Batch { sql, outcome: Ok(()) } => sql == BEGIN_SQL@ && h.len() >= 2 && {
                let body = h.subrange(1, h.len() - 1);
                match h.last() {
                    Issued::Batch { sql: end, outcome } => (end == COMMIT_SQL@ && all_ran(
                        body,
                        stmts,
                    ) && r == db_unit(outcome)) || (end == ROLLBACK_SQL@ && (r matches Err(
                        JeanneError::Database(e),
                    ) && stopped_at(body, stmts, e))),
                    _ => false,
                }
            },
            _ => false,
        }
    }
}

proof fn lemma_upsert_statements_append(
    a: Seq<(Seq<char>, Seq<char>, Seq<char>, i64)>,
    b: Seq<(Seq<char>, Seq<char>, Seq<char>, i64)>,
)
    ensures
        upsert_statements(a + b) == upsert_statements(a) + upsert_statements(b),
    decreases b.len(),
{
    if b.len() == 0 {
        assert(a + b =~= a);
        assert(upsert_statements(a) + upsert_statements(b) =~= upsert_statements(a));
    } else {
        lemma_upsert_statements_append(a, b.drop_last());
        assert((a + b).drop_last() =~= a + b.drop_last());
        assert((a + b).last() == b.last());
        assert(upsert_statements(a + b) =~= upsert_statements(a) + upsert_statements(b));
    }
}

proof fn lemma_upsert_statements_len(items: Seq<(Seq<char>, Seq<char>, Seq<char>, i64)>)
    ensures
        upsert_statements(items).len() == 2 * items.len(),
    decreases items.len(),
{
    if items.len() > 0 {
        lemma_upsert_statements_len(items.drop_last());
    }
}

/// `x` ran the file upsert for the note at `rel`, with hash `hash` and
/// modification date `now`, successfully.
pub open spec fn upserted_file(x: Issued, rel: Seq<char>, hash: Seq<char>, now: i64) -> bool {
    x matches Issued::Statement { sql, params, outcome: Ok(()) } && sql == UPSERT_FILE_SQL@
        && params.len() == 4 && params[0] == SqlValueView::Text(rel) && params[1]
        == SqlValueView::Text(hash) && params[2] == SqlValueView::Integer(now)
}

/// `x` ran the chunk upsert for chunk 0 of the note at `rel`, holding `body`
/// and dated `now`, successfully.
pub open spec fn upserted_chunk(x: Issued, rel: Seq<char>, body: Seq<char>, now: i64) -> bool {
    x matches Issued::Statement { sql, params, outcome: Ok(()) } && sql == UPSERT_CHUNK_SQL@
        && params.len() == 8 && params[0] == SqlValueView::Text(rel + seq![':', '0']) && params[1]
        == SqlValueView::Text(rel) && params[2] == SqlValueView::Integer(0) && params[3]
        == SqlValueView::Text(body) && params[7] == SqlValueView::Integer(now)
}

/// Indexing a note that succeeds records exactly two rows: the file, keyed
/// by its path, with its hash and dated with the indexing time; then its
/// chunk `path:0`, keyed to that path, holding the body, with the given
/// word count, and dated with the same time.
pub proof fn lemma_indexed_note_is_dated_now(
    rel: Seq<char>,
    hash: Seq<char>,
    now: i64,
    fm: FrontmatterView,
    body: Seq<char>,
    token_count: usize,
    h: Seq<Issued>,
    r: Result<(), JeanneError>,
)
    requires
        ran_in_order(h, indexing_statements(rel, hash, now, fm, body, token_count), r),
        r is Ok,
    ensures
        h.len() == 2,
        upserted_file(h[0], rel, hash, now),
        upserted_chunk(h[1], rel, body, now),
        h[1]->Statement_params[4] == SqlValueView::Integer(token_count as i64),
        h[1]->Statement_params[5] == SqlValueView::Text(fm.note_type),
        h[1]->Statement_params[6] == SqlValueView::Text(fm.statut),
        h[0]->Statement_params[3] == match frontmatter_json_of(fm) {
            Some(t) => SqlValueView::Text(t),
            None => SqlValueView::Null,
        },
{
    let stmts = indexing_statements(rel, hash, now, fm, body, token_count);
    assert(h[0] == Issued::Statement { sql: stmts[0].0, params: stmts[0].1, outcome: Ok(()) });
    assert(h[1] == Issued::Statement { sql: stmts[1].0, params: stmts[1].1, outcome: Ok(()) });
}

proof fn lemma_upsert_statements_at(items: Seq<(Seq<char>, Seq<char>, Seq<char>, i64)>, j: int)
    requires
        0 <= j < items.len(),
    ensures
        upsert_statements(items).len() == 2 * items.len(),
        upsert_statements(items)[2 * j] == note_statements(items[j])[0],
        upsert_statements(items)[2 * j + 1] == note_statements(items[j])[1],
    decreases items.len(),
{
    lemma_upsert_statements_len(items);
    lemma_upsert_statements_len(items.drop_last());
    if j < items.len() - 1 {
        lemma_upsert_statements_at(items.drop_last(), j);
        assert(items.drop_last()[j] == items[j]);
    }
}

proof fn lemma_batch_item_ran(
    items: Seq<(Seq<char>, Seq<char>, Seq<char>, i64)>,
    paths: Seq<Seq<char>>,
    body: Seq<Issued>,
    j: int,
)
    requires
        all_ran(body, batch_statements(items, paths)),
        0 <= j < items.len(),
    ensures
        ({
            let k = paths.len() + 2 * j;
            let n = note_statements(items[j]);
            &&& body[k] == Issued::Statement { sql: n[0].0, params: n[0].1, outcome: Ok(()) }
            &&& body[k + 1] == Issued::Statement { sql: n[1].0, params: n[1].1, outcome: Ok(()) }
        }),
{
    lemma_upsert_statements_at(items, j);
    let stmts = batch_statements(items, paths);
    let k = paths.len() + 2 * j;
    assert(stmts[k] == upsert_statements(items)[2 * j]);
    assert(stmts[k + 1] == upsert_statements(items)[2 * j + 1]);
}

/// A batch that commits drops every vanished note and re-indexes every
/// changed one, whatever else it holds: right after `BEGIN` it ran, in
/// order, one `DELETE FROM files` per path to delete, keyed by that path;
/// then, for each note to re-index, its file row (keyed by its path, with
/// its hash, dated with its reading time) and its chunk `path:0` (dated
/// with the same time); then `COMMIT`.
#[verifier::spinoff_prover]
pub proof fn lemma_committed_batch_deletes_then_reindexes(
    items: Seq<(Seq<char>, Seq<char>, Seq<char>, i64)>,
    paths: Seq<Seq<char>>,
    h: Seq<Issued>,
    r: Result<(), JeanneError>,
)
    requires
        transaction_history(batch_statements(items, paths), h, r),
        r is Ok,
        items.len() + paths.len() > 0,
    ensures
        h.len() == paths.len() + 2 * items.len() + 2,
        (h[0] == Issued::Batch { sql: BEGIN_SQL@, outcome: Ok(()) }),
        forall|i: int|
            0 <= i < paths.len() ==> (h[1 + i] == Issued::Statement {
                sql: DELETE_FILE_SQL@,
                params: seq![SqlValueView::Text(#[trigger] paths[i])],
                outcome: Ok(()),
            }),
        forall|j: int|
            0 <= j < items.len() ==> upserted_file(
                h[1 + paths.len() + 2 * j],
                (#[trigger] items[j]).0,
                items[j].2,
                items[j].3,
            ),
        forall|j: int|
            0 <= j < items.len() ==> upserted_chunk(
                h[2 + paths.len() + 2 * j],
                (#[trigger] items[j]).0,
                note_of_content(items[j].1).1,
                items[j].3,
            ),
        forall|j: int|
            0 <= j < items.len() ==> {
                let (fm, text) = note_of_content((#[trigger] items[j]).1);
                let file = h[1 + paths.len() + 2 * j]->Statement_params;
                let chunk = h[2 + paths.len() + 2 * j]->Statement_params;
                &&& file[3] == match frontmatter_json_of(fm) {
                    Some(t) => SqlValueView::Text(t),
                    None => SqlValueView::Null,
                }
                &&& chunk[4] == SqlValueView::Integer((word_count(text) as usize) as i64)
                &&& chunk[5] == SqlValueView::Text(fm.note_type)
                &&& chunk[6] == SqlValueView::Text(fm.statut)
            },
        (h.last() matches Issued::Batch { sql, outcome: Ok(()) } && sql == COMMIT_SQL@),
{
    let stmts = batch_statements(items, paths);
    let dels = delete_statements(paths);
    lemma_upsert_statements_len(items);
    assert(stmts.len() > 0);
    let body = h.subrange(1, h.len() - 1);
    let last = h.last();
    if last->Batch_sql == ROLLBACK_SQL@ && !(last->Batch_sql == COMMIT_SQL@) {
        assert(false);
    }
    assert(all_ran(body, stmts));
    match h[0] {
        Issued::Batch { sql, outcome: Ok(u) } => {
            assert(h[0] == Issued::Batch { sql: BEGIN_SQL@, outcome: Ok(u) });
        },
        _ => {},
    }
    match last {
        Issued::Batch { sql, outcome: Ok(u) } => {},
        Issued::Batch { sql, outcome: Err(e) } => {
            assert(r == db_unit(Err(e)));
        },
        _ => {},
    }
    assert forall|i: int| 0 <= i < paths.len() implies h[1 + i] == Issued::Statement {
        sql: DELETE_FILE_SQL@,
        params: seq![SqlValueView::Text(#[trigger] paths[i])],
        outcome: Ok(()),
    } by {
        assert(body[i] == h[1 + i]);
        assert(stmts[i] == dels[i]);
    }
    assert forall|j: int| 0 <= j < items.len() implies upserted_file(
        h[1 + paths.len() + 2 * j],
        (#[trigger] items[j]).0,
        items[j].2,
        items[j].3,
    ) && upserted_chunk(
        h[2 + paths.len() + 2 * j],
        items[j].0,
        note_of_content(items[j].1).1,
        items[j].3,
    ) by {
        lemma_batch_item_ran(items, paths, body, j);
        let k = paths.len() + 2 * j;
        assert(body[k] == h[1 + k]);
        assert(body[k + 1] == h[2 + k]);
        assert(chunk_id_of(items[j].0) == items[j].0 + seq![':', '0']);
    }
    assert forall|j: int| 0 <= j < items.len() implies {
        let (fm, text) = note_of_content((#[trigger] items[j]).1);
        let file = h[1 + paths.len() + 2 * j]->Statement_params;
        let chunk = h[2 + paths.len() + 2 * j]->Statement_params;
        &&& file[3] == match frontmatter_json_of(fm) {
            Some(t) => SqlValueView::Text(t),
            None => SqlValueView::Null,
        }
        &&& chunk[4] == SqlValueView::Integer((word_count(text) as usize) as i64)
        &&& chunk[5] == SqlValueView::Text(fm.note_type)
        &&& chunk[6] == SqlValueView::Text(fm.statut)
    } by {
        lemma_batch_item_ran(items, paths, body, j);
        let k = paths.len() + 2 * j;
        assert(body[k] == h[1 + k]);
        assert(body[k + 1] == h[2 + k]);
    }
}

/// A batch in which a statement fails is rolled back, never committed:
/// that failure is the last statement run, `ROLLBACK` follows it, and the
/// batch returns that very failure.
pub proof fn lemma_failed_batch_rolls_back(
    stmts: Seq<SqlStatement>,
    h: Seq<Issued>,
    r: Result<(), JeanneError>,
    k: int,
)
    requires
        transaction_history(stmts, h, r),
        1 <= k < h.len(),
        h[k] is Statement,
        h[k]->Statement_outcome is Err,
    ensures
        k == h.len() - 2,
        h.last() is Batch,
        h.last()->Batch_sql == ROLLBACK_SQL@,
        r == Err::<(), JeanneError>(JeanneError::Database(h[k]->Statement_outcome->Err_0)),
{
    let body = h.subrange(1, h.len() - 1);
    if k == h.len() - 1 {
        assert(h.last() == h[k]);
        assert(false);
    }
    assert(body[k - 1] == h[k]);
    if all_ran(body, stmts) {
        assert(body[k - 1] == Issued::Statement {
            sql: stmts[k - 1].0,
            params: stmts[k - 1].1,
            outcome: Ok(()),
        });
        assert(false);
    }
    let e = r->Err_0->Database_0;
    assert(stopped_at(body, stmts, e));
    if k - 1 < body.len() - 1 {
        assert(body.drop_last()[k - 1] == body[k - 1]);
        assert(false);
    }
}

/// Records a note in the index: its file row, then its single chunk; stops
/// at the first statement that fails.
pub(crate) fn index_note(
    storage: &mut StorageManager,
    rel_path: &String,
    hash: &str,
    now: i64,
    fm: &NoteFrontmatter,
    body: String,
    token_count: usize,
) -> (r: Result<(), JeanneError>)
    ensures
        extends(old(storage).history(), final(storage).history()),
        final(storage).connection() == old(storage).connection(),
        ran_in_order(
            added(old(storage).history(), final(storage).history()),
            indexing_statements(rel_path@, hash@, now, fm@, body@, token_count),
            r,
        ),
{
    let ghost h0 = storage.history();
    let ghost stmts = indexing_statements(rel_path@, hash@, now, fm@, body@, token_count);
    let json = frontmatter_json(fm);
    let r1 = storage.upsert_file(rel_path.as_str(), hash, now, as_opt_str(&json));
    let ghost h1 = storage.history();
    proof {
        assert(added(h0, h1) =~= Seq::<Issued>::empty().push(h1.last()));
        assert(h1.subrange(0, h0.len() as int) =~= h0);
        assert(Seq::<SqlStatement>::empty().push(stmts[0]) =~= seq![stmts[0]]);
        assert(all_ran(Seq::<Issued>::empty(), Seq::<SqlStatement>::empty()));
        lemma_run_one_more(Seq::empty(), Seq::empty(), h1.last(), stmts[0], r1);
        if r1 is Err && r1->Err_0 is Database {
            let e = r1->Err_0->Database_0;
            lemma_stopped_prefix(added(h0, h1), seq![stmts[0]], seq![stmts[1]], e);
            assert(seq![stmts[0]] + seq![stmts[1]] =~= stmts);
        }
    }
    if let Err(e) = r1 {
        return Err(e);
    }
    let chunk = note_chunk(rel_path, body, token_count, fm, now);
    let r2 = storage.index_chunk(&chunk);
    let ghost h2 = storage.history();
    proof {
        assert(chunk_params_spec(chunk) =~= stmts[1].1);
        assert(h2.subrange(0, h0.len() as int) =~= h0);
        assert(added(h0, h2) =~= added(h0, h1).push(h2.last()));
        assert(seq![stmts[0]].push(stmts[1]) =~= stmts);
        lemma_run_one_more(added(h0, h1), seq![stmts[0]], h2.last(), stmts[1], r2);
    }
    r2
}

/// Re-indexes one planned note: records the file, then its single chunk.
fn reindex_note(storage: &mut StorageManager, item: &FileItem) -> (r: Result<(), JeanneError>)
    ensures
        extends(old(storage).history(), final(storage).history()),
        final(storage).connection() == old(storage).connection(),
        ran_in_order(
            added(old(storage).history(), final(storage).history()),
            note_statements(item_view(*item)),
            r,
        ),
{
    let (fm, body) = note_from_content(&item.content);
    let token_count = count_words(body.as_str());
    index_note(storage, &item.rel_path, item.hash.as_str(), item.now, &fm, body, token_count)
}

/// Applies a batch to the index in one transaction: drops the files that
/// are gone, then re-indexes each changed note (file row and one chunk).
/// The first failure stops the batch and rolls the transaction back; an
/// empty batch does nothing.
#[verifier::rlimit(50)]
pub fn reconcile_batch(
    storage: &mut StorageManager,
    to_upsert: &Vec<FileItem>,
    to_delete: &Vec<String>,
) -> (r: Result<(), JeanneError>)
    ensures
        extends(old(storage).history(), final(storage).history()),
        final(storage).connection() == old(storage).connection(),
        transaction_history(
            batch_statements(items_view(to_upsert@), strings_view(to_delete@)),
            added(old(storage).history(), final(storage).history()),
            r,
        ),
        to_upsert.len() == 0 && to_delete.len() == 0 ==> r is Ok,
        r matches Err(e) ==> e is Database,
{
    let ghost h0 = storage.history();
    let ghost c0 = storage.connection();
    let ghost items = items_view(to_upsert@);
    let ghost paths = strings_view(to_delete@);
    let ghost dels = delete_statements(paths);
    let ghost stmts = batch_statements(items, paths);
    proof {
        lemma_upsert_statements_len(items);
        assert(h0.subrange(0, h0.len() as int) =~= h0);
    }
    if to_upsert.len() == 0 && to_delete.len() == 0 {
        assert(added(h0, h0) =~= Seq::<Issued>::empty());
        return Ok(());
    }
    let rb = storage.execute_batch(BEGIN_SQL);
    let ghost hb = storage.history();
    proof {
        assert(hb.subrange(0, h0.len() as int) =~= h0);
        assert(added(h0, hb) =~= seq![hb.last()]);
    }
    if let Err(e) = rb {
        return Err(e);
    }
    let mut tx: Result<(), JeanneError> = Ok(());
    let mut i: usize = 0;
    proof {
        assert(added(hb, hb) =~= Seq::<Issued>::empty());
        assert(hb.subrange(0, hb.len() as int) =~= hb);
        assert(dels.take(0) =~= Seq::<SqlStatement>::empty());
    }
    while i < to_delete.len() && tx.is_ok()
        invariant
            i <= to_delete.len(),
            paths == strings_view(to_delete@),
            dels == delete_statements(paths),
            stmts == dels + upsert_statements(items),
            extends(hb, storage.history()),
            storage.connection() == c0,
            tx is Ok ==> all_ran(added(hb, storage.history()), dels.take(i as int)),
            tx is Err ==> (tx matches Err(JeanneError::Database(e)) && stopped_at(
                added(hb, storage.history()),
                stmts,
                e,
            )),
        decreases to_delete.len() - i,
    {
        let ghost hp = storage.history();
        let rd = storage.delete_file(to_delete[i].as_str());
        let ghost hn = storage.history();
        proof {
            let stmt: SqlStatement = (DELETE_FILE_SQL@, seq![SqlValueView::Text(to_delete@[i as int]@)]);
            assert(dels[i as int] == stmt);
            assert(dels.take(i as int).push(stmt) =~= dels.take(i + 1));
            assert(hn.subrange(0, hb.len() as int) =~= hb);
            assert(added(hb, hn) =~= added(hb, hp).push(hn.last()));
            lemma_run_one_more(added(hb, hp), dels.take(i as int), hn.last(), stmt, rd);
            if rd is Err && rd->Err_0 is Database {
            let e = rd->Err_0->Database_0;
                lemma_stopped_prefix(
                    added(hb, hn),
                    dels.take(i + 1),
                    dels.skip(i + 1) + upsert_statements(items),
                    e,
                );
                assert(dels.take(i + 1) + (dels.skip(i + 1) + upsert_statements(items)) =~= stmts);
            }
        }
        if rd.is_err() {
            tx = rd;
        }
        i = i + 1;
    }
    let mut j: usize = 0;
    proof {
        if tx is Ok {
            assert(dels.take(i as int) =~= dels);
            assert(items.take(0) =~= Seq::<(Seq<char>, Seq<char>, Seq<char>, i64)>::empty());
            assert(dels + upsert_statements(items.take(0)) =~= dels);
        }
    }
    while j < to_upsert.len() && tx.is_ok()
        invariant
            j <= to_upsert.len(),
            items == items_view(to_upsert@),
            stmts == dels + upsert_statements(items),
            extends(hb, storage.history()),
            storage.connection() == c0,
            tx is Ok ==> all_ran(
                added(hb, storage.history()),
                dels + upsert_statements(items.take(j as int)),
            ),
            tx is Err ==> (tx matches Err(JeanneError::Database(e)) && stopped_at(
                added(hb, storage.history()),
                stmts,
                e,
            )),
        decreases to_upsert.len() - j,
    {
        let ghost hp = storage.history();
        let rn = reindex_note(storage, &to_upsert[j]);
        let ghost hn = storage.history();
        proof {
            let note = note_statements(items[j as int]);
            let pre = dels + upsert_statements(items.take(j as int));
            assert(items.take(j + 1).drop_last() =~= items.take(j as int));
            assert(items.take(j + 1).last() == items[j as int]);
            assert(pre + note =~= dels + upsert_statements(items.take(j + 1)));
            assert(hn.subrange(0, hb.len() as int) =~= hb);
            assert(added(hb, hn) =~= added(hb, hp) + added(hp, hn));
            if rn is Ok {
                lemma_all_ran_concat(added(hb, hp), pre, added(hp, hn), note);
            } else {
                let e = choose|e: rusqlite::Error| rn == Err::<(), JeanneError>(JeanneError::Database(e));
                assert(stopped_at(added(hp, hn), note, e));
                lemma_stopped_concat(added(hb, hp), pre, added(hp, hn), note, e);
                lemma_upsert_statements_append(items.take(j + 1), items.skip(j + 1));
                assert(items.take(j + 1) + items.skip(j + 1) =~= items);
                lemma_stopped_prefix(added(hb, hn), pre + note, upsert_statements(items.skip(j + 1)), e);
                assert(pre + note + upsert_statements(items.skip(j + 1)) =~= stmts);
            }
        }
        if rn.is_err() {
            tx = rn;
        }
        j = j + 1;
    }
    let ghost hl = storage.history();
    proof {
        if tx is Ok {
            assert(items.take(j as int) =~= items);
        }
    }
    if tx.is_ok() {
        let rc = storage.execute_batch(COMMIT_SQL);
        proof {
            let hf = storage.history();
            assert(hf.subrange(0, h0.len() as int) =~= h0);
            assert(added(h0, hf).subrange(1, added(h0, hf).len() - 1) =~= added(hb, hl));
            assert(added(h0, hf)[0] == hb.last());
            assert(added(h0, hf).last() == hf.last());
        }
        rc
    } else {
        let _ = storage.execute_batch(ROLLBACK_SQL);
        proof {
            let hf = storage.history();
            assert(hf.subrange(0, h0.len() as int) =~= h0);
            assert(added(h0, hf).subrange(1, added(h0, hf).len() - 1) =~= added(hb, hl));
            assert(added(h0, hf)[0] == hb.last());
            assert(added(h0, hf).last() == hf.last());
        }
        tx
    }
}

/// Where the vault lives.
pub enum VaultLocation {
    /// The directory named by the vault variable of the environment.
    Configured(String),
    /// `Documents/JeanneVault` under the user's home directory (given by
    /// its components).
    Fallback(Vec<String>),
}

/// The components of the vault under a home directory.
pub open spec fn fallback_vault_of(home: Seq<Seq<char>>) -> Seq<Seq<char>> {
    home + seq!["Documents"@, "JeanneVault"@]
}

/// The directory that the vault variable names: its value, trimmed, when
/// the variable is set and not blank.
pub open spec fn configured_dir_of(configured: Option<Seq<char>>) -> Option<Seq<char>> {
    match configured {
        Some(v) => if trim_ws(v).len() > 0 {
            Some(trim_ws(v))
        } else {
            None
        },
        None => None,
    }
}

/// The directory that the vault variable names, if any: its value trimmed,
/// when that is not blank.
pub fn configured_vault_dir(configured: &Option<String>) -> (r: Option<String>)
    ensures
        opt_string_view(r) == configured_dir_of(opt_string_view(*configured)),
{
    match configured {
        Some(v) => {
            let t = crate::text::trim(v.as_str());
            if t.as_str().is_empty() {
                None
            } else {
                Some(t)
            }
        },
        None => None,
    }
}

/// The vault location. `configured` is the value of the vault variable and
/// `configured_usable` tells whether the directory it names
/// ([`configured_vault_dir`]) is usable as the vault (it is a directory, or
/// could be created). That directory is the vault when it is named and
/// usable; else the vault is `Documents/JeanneVault` under the home
/// directory, or under the current directory when there is no home.
pub fn vault_location(
    configured: Option<String>,
    configured_usable: bool,
    home: Option<Vec<String>>,
) -> (r: VaultLocation)
    ensures
        match r {
            VaultLocation::Configured(p) => configured_usable && configured_dir_of(
                opt_string_view(configured),
            ) == Some(p@),
            VaultLocation::Fallback(parts) => !(configured_usable && configured_dir_of(
                opt_string_view(configured),
            ) is Some) && strings_view(parts@) == fallback_vault_of(
                match home {
                    Some(h) => strings_view(h@),
                    None => seq!["."@],
                },
            ),
        },
{
    if configured_usable {
        if let Some(dir) = configured_vault_dir(&configured) {
            return VaultLocation::Configured(dir);
        }
    }
    let mut parts = match home {
        Some(h) => h,
        None => {
            let mut cur: Vec<String> = Vec::new();
            cur.push(String::from_str("."));
            cur
        },
    };
    let ghost base = strings_view(parts@);
    parts.push(String::from_str("Documents"));
    parts.push(String::from_str("JeanneVault"));
    assert(strings_view(parts@) =~= base + seq!["Documents"@, "JeanneVault"@]);
    VaultLocation::Fallback(parts)
}

/// The file name of the introduction note written into a new vault.
pub const WELCOME_NOTE_NAME: &'static str = "Welcome.md";

/// The introduction note written into a new vault.
pub const WELCOME_NOTE: &'static str = r#"---
id: welcome-note
title: Bienvenue dans Jeanne
date_creation: "2026-09-12T00:00:00Z"
date_modification: "2026-09-12T00:00:00Z"
type: semantique
statut: actif
tags:
  - guide
  - bienvenue
---

# Bienvenue dans Jeanne

Jeanne est votre assistant de connaissances souverain et local-first ("File-over-App").

## Principes clés
- **Vos fichiers vous appartiennent** : toutes les notes sont au format Markdown standard sur votre disque.
- **Accès Rapide** : appuyez sur `Alt + Espace` pour invoquer la palette flottante.
- **Recherche Instantanée** : indexation plein-texte SQLite FTS5 ultra-rapide.
- **Prise de note rapide** : tapez `/note Votre pensée` pour consigner directement dans le journal du jour.
"#;

} // verus!
