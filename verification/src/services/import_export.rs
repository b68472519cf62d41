use vstd::prelude::*;

use crate::db::sql::{Db, SqlCall, SqlOutcome};

use crate::db::sql::{self, SqlValue};
use crate::error::{AppError, AppResult};
use crate::json::{absent, bool_of, get, json_absent, json_bool, json_document, json_get, json_pretty, json_str, parse_json, str_of, to_pretty_json, JsonValue};
use crate::models::prompt::CreatePromptRequest;
use crate::services::{prompt_service, transaction};
use crate::text::{
    chars_of, find_chars, find_first, lowercase, slice_to_vec, split_chars, split_on,
    starts_with, starts_with_at, string_of, strings_view, strip_suffix_all, strip_suffix_all_len,
    to_lowercase, trim, trim_char, trim_char_vec, trimmed,
};

verus! {

broadcast use crate::db::sql::group_calls;

// ---------------------------------------------------------------------
// Data types
// ---------------------------------------------------------------------

/// What an import did: prompts created, duplicates skipped, and problems met.
#[derive(Debug, Clone)]
pub struct ImportResult {
    pub imported: usize,
    pub skipped: usize,
    pub errors: Vec<String>,
}

#[derive(Debug, Clone)]
pub struct ExportData {
    pub version: String,
    pub exported_at: String,
    pub prompts: Vec<ExportPrompt>,
}

#[derive(Debug, Clone)]
pub struct ExportPrompt {
    pub title: String,
    pub description: Option<String>,
    pub content: String,
    pub tags: Vec<String>,
    pub is_favorite: bool,
    pub variants: Vec<ExportVariant>,
}

#[derive(Debug, Clone)]
pub struct ExportVariant {
    pub label: String,
    pub content: String,
}

#[derive(Debug, Clone)]
pub struct ImportPromptData {
    pub title: String,
    pub description: Option<String>,
    pub content: String,
    pub tags: Option<Vec<String>>,
    pub is_favorite: Option<bool>,
    pub variants: Option<Vec<ExportVariant>>,
}

#[derive(Debug, Clone)]
pub struct ImportData {
    pub prompts: Vec<ImportPromptData>,
}

// ---------------------------------------------------------------------
// Markdown front matter
// ---------------------------------------------------------------------

/// A file name without its trailing ".md" and then ".markdown" suffixes.
pub open spec fn file_stem(filename: Seq<char>) -> Seq<char> {
    strip_suffix_all(strip_suffix_all(filename, ".md"@), ".markdown"@)
}

/// A value without surrounding double and then single quotes.
pub open spec fn unquote(s: Seq<char>) -> Seq<char> {
    trim_char(trim_char(s, '"'), '\'')
}

/// The non-empty items of a list's pieces, each trimmed and unquoted.
pub open spec fn yaml_items(pieces: Seq<Seq<char>>) -> Seq<Seq<char>>
    decreases pieces.len(),
{
    if pieces.len() == 0 {
        Seq::empty()
    } else {
        let prev = yaml_items(pieces.drop_last());
        let t = unquote(trim(pieces.last()));
        if t.len() > 0 { prev.push(t) } else { prev }
    }
}

/// The inside of a list: the trimmed text, without one pair of surrounding brackets.
pub open spec fn yaml_list_body(s: Seq<char>) -> Seq<char> {
    let t = trim(s);
    if t.len() >= 2 && t[0] == '[' && t.last() == ']' { t.subrange(1, t.len() - 1) } else { t }
}

/// The items of an inline list like `[a, b]` or `a, b`.
pub open spec fn yaml_list(s: Seq<char>) -> Seq<Seq<char>> {
    yaml_items(split_on(yaml_list_body(s), ','))
}

/// Whether a front-matter flag value means yes.
pub open spec fn is_truthy(v: Seq<char>) -> bool {
    v == "true"@ || v == "yes"@
}

/// The effect of one front-matter line on (title, tags, favorite): a
/// `title:`, `tags:` or `favorite:` line sets its field; other lines change nothing.
pub open spec fn front_matter_step(state: (Option<Seq<char>>, Seq<Seq<char>>, bool), raw: Seq<char>) -> (Option<Seq<char>>, Seq<Seq<char>>, bool) {
    let line = trim(raw);
    if line.len() == 0 {
        state
    } else if starts_with(line, "title:"@) {
        (Some(unquote(trim(line.skip("title:"@.len() as int)))), state.1, state.2)
    } else if starts_with(line, "tags:"@) {
        (state.0, yaml_list(line.skip("tags:"@.len() as int)), state.2)
    } else if starts_with(line, "favorite:"@) {
        (state.0, state.1, is_truthy(lowercase(trim(line.skip("favorite:"@.len() as int)))))
    } else {
        state
    }
}

/// (title, tags, favorite) after reading the given lines in order.
pub open spec fn front_matter(lines: Seq<Seq<char>>) -> (Option<Seq<char>>, Seq<Seq<char>>, bool)
    decreases lines.len(),
{
    if lines.len() == 0 {
        (None, Seq::empty(), false)
    } else {
        front_matter_step(front_matter(lines.drop_last()), lines.last())
    }
}

/// (title, tags, favorite, body) of a markdown file. Without a front-matter
/// block (`---` ... `---` at the start of the trimmed text) the title comes
/// from the file name and the body is the whole content; with one, the block
/// sets the fields it names and the body is the trimmed rest.
pub open spec fn parsed_markdown(filename: Seq<char>, content: Seq<char>) -> (Seq<char>, Seq<Seq<char>>, bool, Seq<char>) {
    let trimmed = trim(content);
    let stem = file_stem(filename);
    if !starts_with(trimmed, "---"@) {
        (stem, Seq::empty(), false, content)
    } else {
        let after = trimmed.skip(3);
        match find_first(after, "---"@) {
            None => (stem, Seq::empty(), false, content),
            Some(pos) => {
                let fm = trim(after.take(pos));
                let body = trim(after.skip(pos + 3));
                let (title, tags, favorite) = front_matter(split_on(fm, '\n'));
                (match title { Some(t) => t, None => stem }, tags, favorite, body)
            }
        }
    }
}

/// `cs[from..to]` trimmed and unquoted.
fn unquoted(cs: &[char], from: usize, to: usize) -> (r: Vec<char>)
    requires
        from <= to <= cs.len(),
    ensures
        r@ == unquote(trim(cs@.subrange(from as int, to as int))),
{
    let t = trimmed(cs, from, to);
    let d = trim_char_vec(t.as_slice(), 0, t.len(), '"');
    proof { assert(t@.subrange(0, t@.len() as int) =~= t@); }
    let s = trim_char_vec(d.as_slice(), 0, d.len(), '\'');
    proof { assert(d@.subrange(0, d@.len() as int) =~= d@); }
    s
}

/// The items of an inline list.
pub fn parse_yaml_list_chars(cs: &[char]) -> (r: Vec<String>)
    ensures
        strings_view(r@) == yaml_list(cs@),
{
    let t = trimmed(cs, 0, cs.len());
    proof { assert(cs@.subrange(0, cs@.len() as int) =~= cs@); }
    let body = if t.len() >= 2 && t[0] == '[' && t[t.len() - 1] == ']' {
        slice_to_vec(t.as_slice(), 1, t.len() - 1)
    } else {
        t
    };
    let pieces = split_chars(body.as_slice(), ',');
    let ghost pv = pieces@.map_values(|p: Vec<char>| p@);
    let mut r: Vec<String> = Vec::new();
    for i in 0..pieces.len()
        invariant
            pv == pieces@.map_values(|p: Vec<char>| p@),
            pv == split_on(yaml_list_body(cs@), ','),
            strings_view(r@) == yaml_items(pv.take(i as int)),
    {
        proof {
            assert(pv.take(i + 1).drop_last() =~= pv.take(i as int));
            assert(pv.take(i + 1).last() == pieces@[i as int]@);
            assert(pieces[i as int]@.subrange(0, pieces[i as int]@.len() as int) =~= pieces[i as int]@);
        }
        let item = unquoted(pieces[i].as_slice(), 0, pieces[i].len());
        if item.len() > 0 {
            r.push(string_of(item.as_slice()));
            proof { assert(strings_view(r@) =~= yaml_items(pv.take(i + 1))); }
        }
    }
    proof { assert(pv.take(pieces.len() as int) =~= pv); }
    r
}

/// The items of an inline list like `[tag1, tag2]` or `tag1, tag2`.
pub fn parse_yaml_list(s: &str) -> (r: Vec<String>)
    ensures
        strings_view(r@) == yaml_list(s@),
{
    let cs = chars_of(s);
    parse_yaml_list_chars(cs.as_slice())
}

/// Applies one front-matter line.
fn read_front_matter_line(
    line_raw: &Vec<char>,
    title: &mut Option<Vec<char>>,
    tags: &mut Vec<String>,
    favorite: &mut bool,
)
    ensures
        ({
            let before = (match *old(title) { Some(t) => Some(t@), None => None }, strings_view(old(tags)@), *old(favorite));
            let after = (match *final(title) { Some(t) => Some(t@), None => None }, strings_view(final(tags)@), *final(favorite));
            after == front_matter_step(before, line_raw@)
        }),
{
    let line = trimmed(line_raw.as_slice(), 0, line_raw.len());
    proof { assert(line_raw@.subrange(0, line_raw@.len() as int) =~= line_raw@); }
    if line.len() == 0 {
        return;
    }
    let title_key = chars_of("title:");
    let tags_key = chars_of("tags:");
    let favorite_key = chars_of("favorite:");
    proof { assert(line@.skip(0) =~= line@); }
    if starts_with_at(line.as_slice(), 0, title_key.as_slice()) {
        let v = unquoted(line.as_slice(), title_key.len(), line.len());
        proof {
            assert(line@.subrange(title_key.len() as int, line@.len() as int) =~= line@.skip("title:"@.len() as int));
        }
        *title = Some(v);
    } else if starts_with_at(line.as_slice(), 0, tags_key.as_slice()) {
        let rest = slice_to_vec(line.as_slice(), tags_key.len(), line.len());
        proof { assert(rest@ =~= line@.skip("tags:"@.len() as int)); }
        *tags = parse_yaml_list_chars(rest.as_slice());
    } else if starts_with_at(line.as_slice(), 0, favorite_key.as_slice()) {
        let v = trimmed(line.as_slice(), favorite_key.len(), line.len());
        proof {
            assert(line@.subrange(favorite_key.len() as int, line@.len() as int) =~= line@.skip("favorite:"@.len() as int));
        }
        let lower = to_lowercase(v.as_slice());
        let true_word = chars_of("true");
        let yes_word = chars_of("yes");
        *favorite = crate::text::chars_eq(&lower, &true_word) || crate::text::chars_eq(&lower, &yes_word);
    }
}

/// Parses a markdown file into (title, tags, favorite, body).
pub fn parse_markdown_frontmatter(filename: &str, content: &str) -> (r: (String, Vec<String>, bool, String))
    ensures
        (r.0@, strings_view(r.1@), r.2, r.3@) == parsed_markdown(filename@, content@),
{
    let name = chars_of(filename);
    let md = chars_of(".md");
    let markdown = chars_of(".markdown");
    proof {
        reveal_strlit(".md");
        reveal_strlit(".markdown");
    }
    let end1 = strip_suffix_all_len(name.as_slice(), name.len(), md.as_slice());
    let end2 = strip_suffix_all_len(name.as_slice(), end1, markdown.as_slice());
    proof {
        assert(name@.take(name.len() as int) =~= name@);
    }
    let stem = string_of(slice_to_vec(name.as_slice(), 0, end2).as_slice());
    proof { assert(name@.subrange(0, end2 as int) =~= name@.take(end2 as int)); }

    let cs = chars_of(content);
    let trimmed_content = trimmed(cs.as_slice(), 0, cs.len());
    proof { assert(cs@.subrange(0, cs@.len() as int) =~= cs@); }
    let delimiter = chars_of("---");
    proof { reveal_strlit("---"); assert(trimmed_content@.skip(0) =~= trimmed_content@); }
    if !starts_with_at(trimmed_content.as_slice(), 0, delimiter.as_slice()) {
        return (stem, Vec::new(), false, content.to_string());
    }
    let after = slice_to_vec(trimmed_content.as_slice(), 3, trimmed_content.len());
    proof { assert(after@ =~= trimmed_content@.skip(3)); }
    let pos = match find_chars(after.as_slice(), delimiter.as_slice()) {
        Some(p) => p,
        None => return (stem, Vec::new(), false, content.to_string()),
    };
    let fm = trimmed(after.as_slice(), 0, pos);
    let body = trimmed(after.as_slice(), pos + 3, after.len());
    proof {
        assert(after@.subrange(0, pos as int) =~= after@.take(pos as int));
        assert(after@.subrange(pos + 3, after@.len() as int) =~= after@.skip(pos + 3));
    }

    let lines = split_chars(fm.as_slice(), '\n');
    let ghost lv = lines@.map_values(|p: Vec<char>| p@);
    let mut title: Option<Vec<char>> = None;
    let mut tags: Vec<String> = Vec::new();
    let mut favorite = false;
    for i in 0..lines.len()
        invariant
            lv == lines@.map_values(|p: Vec<char>| p@),
            (match title { Some(t) => Some(t@), None => None }, strings_view(tags@), favorite) == front_matter(lv.take(i as int)),
    {
        proof {
            assert(lv.take(i + 1).drop_last() =~= lv.take(i as int));
            assert(lv.take(i + 1).last() == lines@[i as int]@);
        }
        read_front_matter_line(&lines[i], &mut title, &mut tags, &mut favorite);
    }
    proof { assert(lv.take(lines.len() as int) =~= lv); }
    let title = match title {
        Some(t) => string_of(t.as_slice()),
        None => stem,
    };
    (title, tags, favorite, string_of(body.as_slice()))
}

}

verus! {

// ---------------------------------------------------------------------
// Duplicates
// ---------------------------------------------------------------------

/// How many leading characters of content a duplicate check compares.
pub const DUPLICATE_PREFIX_CHARS: usize = 200;

/// The first 200 characters of a text.
pub fn content_prefix(content: &str) -> (r: String)
    ensures
        r@ == content@.take(if content@.len() < 200 { content@.len() as int } else { 200 }),
{
    let cs = chars_of(content);
    let n = if cs.len() < DUPLICATE_PREFIX_CHARS { cs.len() } else { DUPLICATE_PREFIX_CHARS };
    let v = slice_to_vec(cs.as_slice(), 0, n);
    proof { assert(cs@.subrange(0, n as int) =~= cs@.take(n as int)); }
    string_of(v.as_slice())
}

/// Counts the active prompts with a title and a primary content start.
pub const DUPLICATE_SQL: &'static str = "SELECT COUNT(*) FROM prompts p
         JOIN variants v ON v.id = p.primary_variant_id AND v.deleted_at IS NULL
         WHERE p.title = ?1 AND SUBSTR(v.content, 1, 200) = ?2 AND p.deleted_at IS NULL";

/// The first 200 characters of a content (all of it when shorter).
pub open spec fn prefix_of(content: Seq<char>) -> Seq<char> {
    content.take(if content.len() < 200 { content.len() as int } else { 200 })
}

/// A duplicate check answered a count above zero.
pub open spec fn found_duplicate(call: SqlCall) -> bool {
    sql::first_row(call.outcome) matches Some(row) && (row[0] matches SqlValue::Integer(c) && c > 0) && sql::met(call)
}

/// The statement at position `i` checks for an active prompt with this
/// title and the same first 200 characters of primary content.
pub open spec fn duplicate_check(calls: Seq<SqlCall>, i: int, title: Seq<char>, content: Seq<char>) -> bool {
    sql::text_call(calls, i, DUPLICATE_SQL@, seq![title, prefix_of(content)])
}

/// Whether an active prompt has the same title and the same first 200
/// characters of primary content: one count query; a failed check counts as
/// no duplicate.
fn is_duplicate(conn: &mut Db, title: &str, content: &str) -> (r: bool)
    ensures
        sql::extends(old(conn).calls(), final(conn).calls()),
        sql::writes_ok(old(conn).calls(), final(conn).calls()),
        final(conn).calls().len() == old(conn).calls().len() + 1,
        duplicate_check(final(conn).calls(), old(conn).calls().len() as int, title@, content@),
        r == found_duplicate(final(conn).calls().last()),
{
    let prefix = content_prefix(content);
    let found = sql::query_one(
        conn,
        DUPLICATE_SQL,
        &sql::params2(sql::text_param(title), SqlValue::Text(prefix)),
        &[sql::Kind::Int]);
    match found {
        Ok(row) => match &row[0] {
            SqlValue::Integer(n) => *n > 0,
            _ => false,
        },
        Err(_) => false,
    }
}

/// How many of the checks at positions `checks` found a duplicate.
pub open spec fn count_found(calls: Seq<SqlCall>, checks: Seq<int>) -> nat
    decreases checks.len(),
{
    if checks.len() == 0 {
        0
    } else {
        count_found(calls, checks.drop_last()) + (if found_duplicate(calls[checks.last()]) { 1nat } else { 0nat })
    }
}

/// The count only looks at the checks' own records.
proof fn lemma_count_found_extends(a: Seq<SqlCall>, b: Seq<SqlCall>, checks: Seq<int>)
    requires
        sql::extends(a, b),
        forall|k: int| 0 <= k < checks.len() ==> 0 <= #[trigger] checks[k] < a.len(),
    ensures
        count_found(a, checks) == count_found(b, checks),
    decreases checks.len(),
{
    if checks.len() > 0 {
        lemma_count_found_extends(a, b, checks.drop_last());
        assert(b[checks.last()] == a[checks.last()]);
    }
}

/// From position `n`, the prompts of an import were checked for duplicates
/// in order, at the positions `checks`; every prompt whose check found none
/// was created, its row inserted right after its check.
pub open spec fn imports_checked(calls: Seq<SqlCall>, n: int, prompts: Seq<ImportPromptData>, checks: Seq<int>) -> bool {
    &&& checks.len() == prompts.len()
    &&& forall|k: int| 0 <= k < checks.len() ==> n <= #[trigger] checks[k] && checks[k] + 1 < calls.len() + (if found_duplicate(calls[checks[k]]) { 1int } else { 0int })
    &&& forall|k1: int, k2: int| 0 <= k1 < k2 < checks.len() ==> #[trigger] checks[k1] < #[trigger] checks[k2]
    &&& forall|k: int| 0 <= k < checks.len() ==> duplicate_check(calls, #[trigger] checks[k], prompts[k].title@, prompts[k].content@)
    &&& forall|k: int| 0 <= k < checks.len() && !found_duplicate(calls[#[trigger] checks[k]])
        ==> import_insert(calls[checks[k] + 1], prompts[k])
}

/// `call` inserted the row of the imported prompt `p`: its title,
/// description and favorite flag (not a favorite unless it says so).
pub open spec fn import_insert(call: SqlCall, p: ImportPromptData) -> bool {
    &&& call.sql == prompt_service::INSERT_PROMPT_SQL@
    &&& call.outcome is Changed
    &&& call.params.len() == 5
    &&& sql::text_is(call.params[1], p.title@)
    &&& sql::opt_text_is(call.params[2], crate::text::opt_view(p.description))
    &&& call.params[3] == SqlValue::Integer(if p.is_favorite == Some(true) { 1 } else { 0 })
}

/// `call` inserted the extra variant `v` for the prompt whose id is `prompt_id`.
pub open spec fn variant_insert(call: SqlCall, prompt_id: Seq<char>, v: ExportVariant) -> bool {
    &&& call.sql == prompt_service::INSERT_VARIANT_SQL@
    &&& call.params.len() == 6
    &&& sql::text_is(call.params[1], prompt_id)
    &&& sql::text_is(call.params[2], v.label@)
    &&& sql::text_is(call.params[3], v.content@)
    &&& call.outcome is Changed
}

/// The extra variants an imported prompt asks for (none when it gives none).
pub open spec fn extra_variants(p: ImportPromptData) -> Seq<ExportVariant> {
    match p.variants {
        Some(vs) => vs@,
        None => Seq::empty(),
    }
}

/// Every prompt of an import that was created (its check found no
/// duplicate) had each of its extra variants inserted, one insert per
/// variant at the positions `vpos[k]`, in the order given, after the
/// prompt's own row and before the next prompt's check, with the variant's
/// label and content, for the prompt's id.
pub open spec fn variants_added(calls: Seq<SqlCall>, prompts: Seq<ImportPromptData>, checks: Seq<int>, vpos: Seq<Seq<int>>) -> bool {
    &&& vpos.len() == checks.len()
    &&& forall|k: int| 0 <= k < checks.len() && !found_duplicate(calls[#[trigger] checks[k]]) ==> {
        let vs = extra_variants(prompts[k]);
        let id = prompt_service::text_or_empty(calls[checks[k] + 1].params[0]);
        let end = if k + 1 < checks.len() { checks[k + 1] } else { calls.len() as int };
        &&& vpos[k].len() == vs.len()
        &&& forall|j: int| 0 <= j < vs.len() ==> checks[k] + 1 < #[trigger] vpos[k][j] < end
            && (j > 0 ==> vpos[k][j - 1] < vpos[k][j])
            && variant_insert(calls[vpos[k][j]], id, vs[j])
    }
}

/// The tag names an imported prompt asks for (none when it gives none).
pub open spec fn import_tags(p: ImportPromptData) -> Seq<Seq<char>> {
    match p.tags {
        Some(t) => strings_view(t@),
        None => Seq::empty(),
    }
}

/// Every prompt of an import that was created (its check found no
/// duplicate) had each of its tags looked up and linked to it, in order,
/// after its own row.
pub open spec fn tags_added(calls: Seq<SqlCall>, prompts: Seq<ImportPromptData>, checks: Seq<int>) -> bool {
    forall|k: int| 0 <= k < checks.len() && !found_duplicate(calls[#[trigger] checks[k]]) ==> exists|qs: Seq<int>|
        #[trigger] crate::services::tag_service::tags_linked(calls, checks[k] + 1,
            prompt_service::text_or_empty(calls[checks[k] + 1].params[0]), import_tags(prompts[k]), qs)
}

/// Importing one more prompt, checked at the end of `before`, keeps the tag
/// links of the earlier prompts and adds its own.
proof fn lemma_tags_added_push(before: Seq<SqlCall>, calls: Seq<SqlCall>, n: int, prompts: Seq<ImportPromptData>, p: ImportPromptData,
    checks: Seq<int>)
    requires
        sql::extends(before, calls),
        calls.len() > before.len(),
        0 <= n,
        imports_checked(before, n, prompts, checks),
        tags_added(before, prompts, checks),
        !found_duplicate(calls[before.len() as int]) ==> exists|qs: Seq<int>|
            #[trigger] crate::services::tag_service::tags_linked(calls, before.len() + 1int,
                prompt_service::text_or_empty(calls[before.len() + 1int].params[0]), import_tags(p), qs),
    ensures
        tags_added(calls, prompts.push(p), checks.push(before.len() as int)),
{
    let at = before.len() as int;
    let c2 = checks.push(at);
    let p2 = prompts.push(p);
    assert forall|k: int| 0 <= k < c2.len() && !found_duplicate(calls[#[trigger] c2[k]]) implies exists|qs: Seq<int>|
        #[trigger] crate::services::tag_service::tags_linked(calls, c2[k] + 1,
            prompt_service::text_or_empty(calls[c2[k] + 1].params[0]), import_tags(p2[k]), qs) by {
        if k < checks.len() {
            assert(c2[k] == checks[k] && p2[k] == prompts[k]);
            assert(n <= checks[k]);
            lemma_calls_kept(before, calls, checks[k]);
            assert(!found_duplicate(before[checks[k]]));
            assert(checks[k] + 1 < before.len());
            lemma_calls_kept(before, calls, checks[k] + 1);
            let qs = choose|qs: Seq<int>| #[trigger] crate::services::tag_service::tags_linked(before, checks[k] + 1,
                prompt_service::text_or_empty(before[checks[k] + 1].params[0]), import_tags(prompts[k]), qs);
            crate::services::tag_service::lemma_tags_linked_stable(before, calls, checks[k] + 1,
                prompt_service::text_or_empty(before[checks[k] + 1].params[0]), import_tags(prompts[k]), qs);
        } else {
            assert(c2[k] == at && p2[k] == p);
        }
    }
}

proof fn lemma_calls_kept(a: Seq<SqlCall>, b: Seq<SqlCall>, i: int)
    requires
        sql::extends(a, b),
        0 <= i < a.len(),
    ensures
        b[i] == a[i],
{
}

/// Importing one more prompt, checked at the end of `before`, keeps the
/// variant inserts of the earlier prompts and adds its own.
proof fn lemma_variants_added_push(before: Seq<SqlCall>, calls: Seq<SqlCall>, n: int, prompts: Seq<ImportPromptData>, p: ImportPromptData,
    checks: Seq<int>, vpos: Seq<Seq<int>>, ps: Seq<int>)
    requires
        sql::extends(before, calls),
        calls.len() > before.len(),
        0 <= n,
        imports_checked(before, n, prompts, checks),
        variants_added(before, prompts, checks, vpos),
        forall|k: int, j: int| 0 <= k < vpos.len() && 0 <= j < vpos[k].len() ==> #[trigger] vpos[k][j] < before.len(),
        !found_duplicate(calls[before.len() as int]) ==> {
            let vs = extra_variants(p);
            let id = prompt_service::text_or_empty(calls[before.len() + 1int].params[0]);
            &&& ps.len() == vs.len()
            &&& forall|j: int| 0 <= j < vs.len() ==> before.len() + 1 < #[trigger] ps[j] < calls.len()
                && (j > 0 ==> ps[j - 1] < ps[j])
                && variant_insert(calls[ps[j]], id, vs[j])
        },
    ensures
        variants_added(calls, prompts.push(p), checks.push(before.len() as int), vpos.push(ps)),
{
    let at = before.len() as int;
    let c2 = checks.push(at);
    let v2 = vpos.push(ps);
    let p2 = prompts.push(p);
    assert forall|k: int| 0 <= k < c2.len() && !found_duplicate(calls[#[trigger] c2[k]]) implies {
        let vs = extra_variants(p2[k]);
        let id = prompt_service::text_or_empty(calls[c2[k] + 1].params[0]);
        let end = if k + 1 < c2.len() { c2[k + 1] } else { calls.len() as int };
        &&& v2[k].len() == vs.len()
        &&& forall|j: int| 0 <= j < vs.len() ==> c2[k] + 1 < #[trigger] v2[k][j] < end
            && (j > 0 ==> v2[k][j - 1] < v2[k][j])
            && variant_insert(calls[v2[k][j]], id, vs[j])
    } by {
        if k < checks.len() {
            assert(c2[k] == checks[k] && v2[k] == vpos[k] && p2[k] == prompts[k]);
            assert(n <= checks[k]);
            lemma_calls_kept(before, calls, checks[k]);
            assert(!found_duplicate(before[checks[k]]));
            assert(checks[k] + 1 < before.len());
            lemma_calls_kept(before, calls, checks[k] + 1);
            assert forall|j: int| 0 <= j < vpos[k].len() implies #[trigger] calls[vpos[k][j]] == before[vpos[k][j]] by {
                lemma_calls_kept(before, calls, vpos[k][j]);
            }
            if k + 1 < checks.len() {
                assert(c2[k + 1] == checks[k + 1]);
            } else {
                assert(c2[k + 1] == at);
            }
        } else {
            assert(c2[k] == at && v2[k] == ps && p2[k] == p);
        }
    }
}

/// An imported prompt that was created gets every extra variant it lists,
/// in order, each with its label and content: as many variant inserts as
/// variants given, for that prompt.
pub proof fn lemma_imported_prompt_gets_every_variant(calls: Seq<SqlCall>, n: int, prompts: Seq<ImportPromptData>, checks: Seq<int>,
    vpos: Seq<Seq<int>>, k: int, j: int)
    requires
        imports_checked(calls, n, prompts, checks),
        variants_added(calls, prompts, checks, vpos),
        0 <= k < prompts.len(),
        !found_duplicate(calls[checks[k]]),
        prompts[k].variants matches Some(vs) && 0 <= j < vs.len(),
    ensures
        import_insert(calls[checks[k] + 1], prompts[k]),
        vpos[k].len() == extra_variants(prompts[k]).len(),
        variant_insert(calls[vpos[k][j]], prompt_service::text_or_empty(calls[checks[k] + 1].params[0]), prompts[k].variants->0@[j]),
        checks[k] + 1 < vpos[k][j] < calls.len(),
        j > 0 ==> vpos[k][j - 1] < vpos[k][j],
{
    let vs = extra_variants(prompts[k]);
    assert(vs == prompts[k].variants->0@);
    assert(checks[k] + 1 < vpos[k][j]);
    if k + 1 < checks.len() {
        assert(checks[k] < checks[k + 1]);
        assert(checks[k + 1] + 1 < calls.len() + (if found_duplicate(calls[checks[k + 1]]) { 1int } else { 0int }));
    }
}

// ---------------------------------------------------------------------
// JSON import
// ---------------------------------------------------------------------

/// An import outcome with nothing yet counted.
pub fn empty_result() -> (r: ImportResult)
    ensures
        r.imported == 0 && r.skipped == 0 && r.errors.len() == 0,
{
    ImportResult { imported: 0, skipped: 0, errors: Vec::new() }
}

/// Imports prompts in one transaction: a prompt whose title and content
/// start match an active prompt is skipped, every other one is created with
/// its extra variants. Any failure undoes the whole import.
pub fn import_data(conn: &mut Db, data: ImportData) -> (r: AppResult<ImportResult>)
    ensures
        transaction::in_transaction(old(conn).calls(), final(conn).calls(), r is Ok),
        sql::extends(old(conn).calls(), final(conn).calls()),
        r is Ok ==> sql::writes_ok(old(conn).calls(), final(conn).calls()),
        sql::all_met(old(conn).calls(), final(conn).calls()) ==> r is Ok,
        r matches Ok(res) ==> res.imported + res.skipped == data.prompts.len() && res.errors.len() == 0,
        r matches Ok(res) ==> exists|checks: Seq<int>| #[trigger] imports_checked(final(conn).calls().drop_last(),
            old(conn).calls().len() + 1int, data.prompts@, checks)
            && res.skipped == count_found(final(conn).calls().drop_last(), checks),
        r is Ok ==> exists|checks: Seq<int>, vpos: Seq<Seq<int>>|
            #[trigger] imports_checked(final(conn).calls().drop_last(), old(conn).calls().len() + 1int, data.prompts@, checks)
            && #[trigger] variants_added(final(conn).calls().drop_last(), data.prompts@, checks, vpos)
            && tags_added(final(conn).calls().drop_last(), data.prompts@, checks),
{
    let ghost s0 = conn.calls();
    let ghost prompts = data.prompts@;
    if let Err(e) = transaction::begin(conn) {
        proof { transaction::lemma_transaction_shape(s0, conn.calls(), conn.calls(), conn.calls(), false, false); }
        return Err(e);
    }
    let ghost s1 = conn.calls();
    let result = import_data_tx(conn, data);
    let ghost s2 = conn.calls();
    let r = transaction::finish(conn, result);
    proof {
        transaction::lemma_transaction_shape(s0, s1, s2, conn.calls(), true, r is Ok);
        if r is Ok {
            assert(conn.calls().drop_last() =~= s2);
            let checks = choose|checks: Seq<int>| #[trigger] imports_checked(s2, s1.len() as int, prompts, checks)
                && result->Ok_0.skipped == count_found(s2, checks);
            assert(imports_checked(s2, s1.len() as int, prompts, checks));
            let (c2, v2) = choose|c2: Seq<int>, v2: Seq<Seq<int>>| #[trigger] imports_checked(s2, s1.len() as int, prompts, c2)
                && #[trigger] variants_added(s2, prompts, c2, v2) && tags_added(s2, prompts, c2);
            assert(imports_checked(s2, s1.len() as int, prompts, c2) && variants_added(s2, prompts, c2, v2) && tags_added(s2, prompts, c2));
        }
    }
    r
}

fn import_data_tx(conn: &mut Db, data: ImportData) -> (r: AppResult<ImportResult>)
    ensures
        sql::extends(old(conn).calls(), final(conn).calls()),
        r is Ok ==> sql::writes_ok(old(conn).calls(), final(conn).calls()),
        sql::all_met(old(conn).calls(), final(conn).calls()) ==> r is Ok,
        r matches Ok(res) ==> res.imported + res.skipped == data.prompts.len() && res.errors.len() == 0,
        r matches Ok(res) ==> exists|checks: Seq<int>| #[trigger] imports_checked(final(conn).calls(), old(conn).calls().len() as int, data.prompts@, checks)
            && res.skipped == count_found(final(conn).calls(), checks),
        r is Ok ==> exists|checks: Seq<int>, vpos: Seq<Seq<int>>|
            #[trigger] imports_checked(final(conn).calls(), old(conn).calls().len() as int, data.prompts@, checks)
            && #[trigger] variants_added(final(conn).calls(), data.prompts@, checks, vpos)
            && tags_added(final(conn).calls(), data.prompts@, checks),
        data.prompts.len() == 0 ==> r is Ok,
{
    let ghost all = data.prompts@;
    let mut result = empty_result();
    let prompts = data.prompts;
    let n = prompts.len();
    let ghost mut checks: Seq<int> = Seq::empty();
    let ghost mut vpos: Seq<Seq<int>> = Seq::empty();
    for i in 0..n
        invariant
            variants_added(conn.calls(), all.take(i as int), checks, vpos),
            tags_added(conn.calls(), all.take(i as int), checks),
            forall|k: int, j: int| 0 <= k < vpos.len() && 0 <= j < vpos[k].len() ==> #[trigger] vpos[k][j] < conn.calls().len(),
            sql::extends(old(conn).calls(), conn.calls()),
            n == prompts.len(),
            n == data.prompts.len(),
            prompts@ == all,
            all == data.prompts@,
            result.imported + result.skipped == i,
            result.errors.len() == 0,
            imports_checked(conn.calls(), old(conn).calls().len() as int, all.take(i as int), checks),
            forall|k: int| 0 <= k < checks.len() ==> #[trigger] checks[k] < conn.calls().len(),
            result.skipped == count_found(conn.calls(), checks),
            sql::writes_ok(old(conn).calls(), conn.calls()),
    {
        let prompt_data = &prompts[i];
        let ghost before = conn.calls();
        let duplicate = is_duplicate(conn, prompt_data.title.as_str(), prompt_data.content.as_str());
        let ghost at = before.len() as int;
        let ghost after_check = conn.calls();
        let ghost mut after_create = after_check;
        let ghost mut ps: Seq<int> = Seq::empty();
        let ghost mut id_of_created: Seq<char> = Seq::empty();
        let ghost mut tag_qs: Seq<int> = Seq::empty();
        let ghost mut tag_names_seq: Seq<Seq<char>> = Seq::empty();
        if duplicate {
            result.skipped = result.skipped + 1;
        } else {
            let req = CreatePromptRequest {
                title: prompt_data.title.clone(),
                description: match &prompt_data.description {
                    Some(d) => Some(d.clone()),
                    None => None,
                },
                content: prompt_data.content.clone(),
                variant_label: None,
                tags: match &prompt_data.tags {
                    Some(t) => t.clone(),
                    None => Vec::new(),
                },
                is_favorite: match prompt_data.is_favorite {
                    Some(b) => b,
                    None => false,
                },
            };
            let ghost greq = req;
            let created = prompt_service::create_prompt_tx(conn, req)?;
            proof { after_create = conn.calls(); }
            let ghost id = created.prompt.id@;
            proof {
                id_of_created = id;
                tag_names_seq = strings_view(greq.tags@);
                tag_qs = choose|qs: Seq<int>| #[trigger] crate::services::tag_service::tags_linked(after_create, at + 1, id,
                    strings_view(greq.tags@), qs);
            }
            if let Some(variants) = &prompt_data.variants {
                for j in 0..variants.len()
                    invariant
                        sql::extends(old(conn).calls(), conn.calls()),
                        sql::extends(after_create, conn.calls()),
                        sql::writes_ok(old(conn).calls(), conn.calls()),
                        n == data.prompts.len(),
                        i < n,
                        after_create.len() > at + 1,
                        0 <= at,
                        id == created.prompt.id@,
                        ps.len() == j,
                        forall|m: int| 0 <= m < j ==> at + 1 < #[trigger] ps[m] < conn.calls().len()
                            && (m > 0 ==> ps[m - 1] < ps[m])
                            && variant_insert(conn.calls()[ps[m]], id, variants@[m]),
                {
                    let ghost b = conn.calls();
                    prompt_service::add_variant_tx(
                        conn,
                        created.prompt.id.as_str(),
                        variants[j].label.as_str(),
                        variants[j].content.as_str(),
                    )?;
                    proof {
                        let old_ps = ps;
                        ps = ps.push(b.len() + 2int);
                        assert forall|m: int| 0 <= m < j + 1 implies at + 1 < #[trigger] ps[m] < conn.calls().len()
                            && (m > 0 ==> ps[m - 1] < ps[m])
                            && variant_insert(conn.calls()[ps[m]], id, variants@[m]) by {
                            if m < j {
                                assert(ps[m] == old_ps[m]);
                                assert(at + 1 < old_ps[m] < b.len());
                                lemma_calls_kept(b, conn.calls(), ps[m]);
                                if m > 0 {
                                    assert(ps[m - 1] == old_ps[m - 1]);
                                }
                            } else {
                                if m > 0 {
                                    assert(ps[m - 1] == old_ps[m - 1]);
                                }
                            }
                        }
                    }
                }
            }
            result.imported = result.imported + 1;
        }
        proof {
            lemma_count_found_extends(before, conn.calls(), checks);
            assert forall|k: int| 0 <= k < checks.len() implies #[trigger] conn.calls()[checks[k]] == before[checks[k]] by {}
            assert(conn.calls()[at] == after_check[at]);
            if !duplicate {
                assert(conn.calls()[at + 1] == after_create[at + 1]);
            }
            let old_checks = checks;
            checks = checks.push(at);
            assert(checks.drop_last() =~= old_checks);
            assert(all.take(i + 1) =~= all.take(i as int).push(all[i as int]));
            assert(count_found(conn.calls(), checks) == count_found(conn.calls(), old_checks)
                + (if found_duplicate(conn.calls()[at]) { 1nat } else { 0nat }));
            assert(imports_checked(conn.calls(), old(conn).calls().len() as int, all.take(i + 1), checks));
            if !duplicate {
                assert(prompt_service::text_or_empty(conn.calls()[at + 1].params[0]) == id_of_created);
            }
            lemma_variants_added_push(before, conn.calls(), old(conn).calls().len() as int, all.take(i as int), all[i as int], old_checks, vpos, ps);
            if !duplicate {
                crate::services::tag_service::lemma_tags_linked_stable(after_create, conn.calls(), at + 1, id_of_created, tag_names_seq, tag_qs);
                assert(tag_names_seq =~= import_tags(all[i as int]));
                assert(crate::services::tag_service::tags_linked(conn.calls(), at + 1, id_of_created, import_tags(all[i as int]), tag_qs));
            }
            lemma_tags_added_push(before, conn.calls(), old(conn).calls().len() as int, all.take(i as int), all[i as int], old_checks);
            vpos = vpos.push(ps);
        }
    }
    proof {
        assert(all.take(n as int) =~= all);
        assert(imports_checked(conn.calls(), old(conn).calls().len() as int, data.prompts@, checks));
        assert(variants_added(conn.calls(), data.prompts@, checks, vpos));
    }
    Ok(result)
}

/// An import error about malformed JSON.
fn invalid_json(detail: &str) -> (e: AppError)
    ensures
        e matches AppError::Invalid(m) && m@ == "Invalid JSON: "@ + detail@,
        json_error(e),
{
    let mut message = "Invalid JSON: ".to_string();
    crate::text::push_str(&mut message, detail);
    let e = AppError::Invalid(message);
    proof {
        let prefix = "Invalid JSON: "@;
        assert(e->Invalid_0@.take(prefix.len() as int) =~= prefix);
    }
    e
}

/// An import document that could not be read: invalid, with a message
/// that starts "Invalid JSON: ".
pub open spec fn json_error(e: AppError) -> bool {
    e matches AppError::Invalid(m) && starts_with(m@, "Invalid JSON: "@)
}

/// The items of an import document's `prompts` array, when it has one.
pub open spec fn doc_prompts(doc: JsonValue) -> Option<Seq<JsonValue>> {
    match get(doc, "prompts"@) {
        Some(JsonValue::Array(items)) => Some(items@),
        _ => None,
    }
}

/// `out` is the optional text member `v` holds: none when missing or null.
pub open spec fn opt_str_read(v: Option<JsonValue>, out: Option<String>) -> bool {
    if absent(v) { out is None } else { out is Some && str_of(v) == Some(out->0@) }
}

/// `out` is the list of texts an array member holds.
pub open spec fn strs_read(items: Seq<JsonValue>, out: Seq<String>) -> bool {
    &&& out.len() == items.len()
    &&& forall|k: int| 0 <= k < items.len() ==> str_of(Some(items[k])) == Some((#[trigger] out[k])@)
}

/// `out` is the list of variants an array member holds, each an object with
/// a `label` and a `content` text.
pub open spec fn variants_read(items: Seq<JsonValue>, out: Seq<ExportVariant>) -> bool {
    &&& out.len() == items.len()
    &&& forall|k: int| 0 <= k < items.len() ==> str_of(get(items[k], "label"@)) == Some((#[trigger] out[k]).label@)
        && str_of(get(items[k], "content"@)) == Some(out[k].content@)
}

/// `p` is the prompt an item of an import document describes: its `title`
/// and `content` texts, and, unless missing or null, its `description` text,
/// its `tags` texts, its `is_favorite` flag and its `variants`.
pub open spec fn prompt_of_item(item: JsonValue, p: ImportPromptData) -> bool {
    &&& str_of(get(item, "title"@)) == Some(p.title@)
    &&& str_of(get(item, "content"@)) == Some(p.content@)
    &&& opt_str_read(get(item, "description"@), p.description)
    &&& if absent(get(item, "tags"@)) { p.tags is None } else {
        get(item, "tags"@) matches Some(JsonValue::Array(xs)) && p.tags is Some && strs_read(xs@, p.tags->0@)
    }
    &&& if absent(get(item, "is_favorite"@)) { p.is_favorite is None } else {
        bool_of(get(item, "is_favorite"@)) is Some && p.is_favorite == bool_of(get(item, "is_favorite"@))
    }
    &&& if absent(get(item, "variants"@)) { p.variants is None } else {
        get(item, "variants"@) matches Some(JsonValue::Array(xs)) && p.variants is Some && variants_read(xs@, p.variants->0@)
    }
}

/// `prompts` are the prompts the items describe, one each, in order.
pub open spec fn prompts_of_items(items: Seq<JsonValue>, prompts: Seq<ImportPromptData>) -> bool {
    &&& prompts.len() == items.len()
    &&& forall|k: int| 0 <= k < items.len() ==> prompt_of_item(items[k], #[trigger] prompts[k])
}

/// An optional text member is missing, null or a text.
pub open spec fn opt_str_ok(v: Option<JsonValue>) -> bool {
    absent(v) || str_of(v) is Some
}

/// Every item is a text.
pub open spec fn strs_ok(items: Seq<JsonValue>) -> bool {
    forall|k: int| 0 <= k < items.len() ==> str_of(Some(#[trigger] items[k])) is Some
}

/// Every item has a `label` and a `content` text.
pub open spec fn variants_ok(items: Seq<JsonValue>) -> bool {
    forall|k: int| 0 <= k < items.len() ==> str_of(get(#[trigger] items[k], "label"@)) is Some
        && str_of(get(items[k], "content"@)) is Some
}

/// An item of the `prompts` array describes a prompt: it has a `title` and
/// a `content` text, and its other members, unless missing or null, have
/// their kinds.
pub open spec fn item_ok(item: JsonValue) -> bool {
    &&& str_of(get(item, "title"@)) is Some
    &&& str_of(get(item, "content"@)) is Some
    &&& opt_str_ok(get(item, "description"@))
    &&& absent(get(item, "tags"@)) || (get(item, "tags"@) matches Some(JsonValue::Array(xs)) && strs_ok(xs@))
    &&& absent(get(item, "is_favorite"@)) || bool_of(get(item, "is_favorite"@)) is Some
    &&& absent(get(item, "variants"@)) || (get(item, "variants"@) matches Some(JsonValue::Array(xs)) && variants_ok(xs@))
}

/// The import document can be read: it has a `prompts` array and each item
/// describes a prompt.
pub open spec fn import_readable(doc: JsonValue) -> bool {
    doc_prompts(doc) matches Some(items) && forall|k: int| 0 <= k < items.len() ==> item_ok(#[trigger] items[k])
}

/// An item that describes a prompt has the kinds an item needs.
proof fn lemma_prompt_of_item_ok(item: JsonValue, p: ImportPromptData)
    requires
        prompt_of_item(item, p),
    ensures
        item_ok(item),
{
    if !absent(get(item, "tags"@)) {
        let xs = get(item, "tags"@)->0->Array_0@;
        assert forall|k: int| 0 <= k < xs.len() implies str_of(Some(#[trigger] xs[k])) is Some by {
            assert(str_of(Some(xs[k])) == Some(p.tags->0@[k]@));
        }
    }
    if !absent(get(item, "variants"@)) {
        let xs = get(item, "variants"@)->0->Array_0@;
        assert forall|k: int| 0 <= k < xs.len() implies str_of(get(#[trigger] xs[k], "label"@)) is Some
            && str_of(get(xs[k], "content"@)) is Some by {
            assert(str_of(get(xs[k], "label"@)) == Some(p.variants->0@[k].label@));
        }
    }
}

/// A required string member.
fn required_str(v: &JsonValue, key: &str) -> (r: AppResult<String>)
    ensures
        r matches Err(e) ==> json_error(e),
        r is Ok <==> str_of(get(*v, key@)) is Some,
        r matches Ok(s) ==> str_of(get(*v, key@)) == Some(s@),
{
    match json_str(json_get(v, key)) {
        Some(s) => Ok(s),
        None => Err(invalid_json(key)),
    }
}

/// An optional string member: absent or null is `None`.
fn optional_str(v: &JsonValue, key: &str) -> (r: AppResult<Option<String>>)
    ensures
        r matches Err(e) ==> json_error(e),
        r is Ok <==> opt_str_ok(get(*v, key@)),
        r matches Ok(o) ==> opt_str_read(get(*v, key@), o),
{
    let m = json_get(v, key);
    if json_absent(m) {
        return Ok(None);
    }
    match json_str(m) {
        Some(s) => Ok(Some(s)),
        None => Err(invalid_json(key)),
    }
}

/// The texts of an array of strings.
fn strings_of(items: &Vec<JsonValue>, key: &str) -> (r: AppResult<Vec<String>>)
    ensures
        r matches Err(e) ==> json_error(e),
        r is Ok <==> strs_ok(items@),
        r matches Ok(out) ==> strs_read(items@, out@),
{
    let mut out: Vec<String> = Vec::new();
    for i in 0..items.len()
        invariant
            out.len() == i,
            forall|k: int| 0 <= k < i ==> str_of(Some(items@[k])) == Some((#[trigger] out@[k])@),
    {
        match json_str(Some(&items[i])) {
            Some(s) => out.push(s),
            None => {
                proof { assert(str_of(Some(items@[i as int])) is None); }
                return Err(invalid_json(key));
            }
        }
    }
    proof {
        assert forall|k: int| 0 <= k < items@.len() implies str_of(Some(#[trigger] items@[k])) is Some by {
            assert(str_of(Some(items@[k])) == Some(out@[k]@));
        }
    }
    Ok(out)
}

/// The variants of an array of `label` / `content` objects.
fn variants_of(items: &Vec<JsonValue>) -> (r: AppResult<Vec<ExportVariant>>)
    ensures
        r matches Err(e) ==> json_error(e),
        r is Ok <==> variants_ok(items@),
        r matches Ok(out) ==> variants_read(items@, out@),
{
    let mut out: Vec<ExportVariant> = Vec::new();
    for j in 0..items.len()
        invariant
            out.len() == j,
            forall|k: int| 0 <= k < j ==> str_of(get(items@[k], "label"@)) == Some((#[trigger] out@[k]).label@)
                && str_of(get(items@[k], "content"@)) == Some(out@[k].content@),
    {
        let label = match required_str(&items[j], "label") {
            Ok(l) => l,
            Err(e) => {
                proof { assert(!(str_of(get(items@[j as int], "label"@)) is Some)); }
                return Err(e);
            }
        };
        let content = match required_str(&items[j], "content") {
            Ok(c) => c,
            Err(e) => {
                proof { assert(!(str_of(get(items@[j as int], "content"@)) is Some)); }
                return Err(e);
            }
        };
        out.push(ExportVariant { label, content });
    }
    proof {
        assert forall|k: int| 0 <= k < items@.len() implies str_of(get(#[trigger] items@[k], "label"@)) is Some
            && str_of(get(items@[k], "content"@)) is Some by {
            assert(str_of(get(items@[k], "label"@)) == Some(out@[k].label@));
        }
    }
    Ok(out)
}

/// Reads one item of the `prompts` array.
fn read_import_prompt(item: &JsonValue) -> (r: AppResult<ImportPromptData>)
    ensures
        r matches Err(e) ==> json_error(e),
        r is Ok <==> item_ok(*item),
        r matches Ok(p) ==> prompt_of_item(*item, p),
{
    let title = required_str(item, "title")?;
    let content = required_str(item, "content")?;
    let description = optional_str(item, "description")?;
    let t = json_get(item, "tags");
    let tags = if json_absent(t) {
        None
    } else {
        match t {
            Some(JsonValue::Array(xs)) => Some(strings_of(xs, "tags")?),
            _ => return Err(invalid_json("tags")),
        }
    };
    let fav = json_get(item, "is_favorite");
    let is_favorite = if json_absent(fav) {
        None
    } else {
        match json_bool(fav) {
            Some(b) => Some(b),
            None => return Err(invalid_json("is_favorite")),
        }
    };
    let vs = json_get(item, "variants");
    let variants = if json_absent(vs) {
        None
    } else {
        match vs {
            Some(JsonValue::Array(xs)) => Some(variants_of(xs)?),
            _ => return Err(invalid_json("variants")),
        }
    };
    let p = ImportPromptData { title, description, content, tags, is_favorite, variants };
    proof { assert(prompt_of_item(*item, p)); }
    Ok(p)
}

/// Reads the import document: an object with a `prompts` array whose items
/// have a `title` and `content`, and optionally `description`, `tags`,
/// `is_favorite` and `variants` (each with `label` and `content`).
pub fn read_import_data(doc: &JsonValue) -> (r: AppResult<ImportData>)
    ensures
        r matches Err(e) ==> json_error(e),
        r is Ok <==> import_readable(*doc),
        r matches Ok(data) ==> prompts_of_items(doc_prompts(*doc)->0, data.prompts@),
{
    let items = match json_get(doc, "prompts") {
        Some(JsonValue::Array(items)) => items,
        _ => return Err(invalid_json("prompts")),
    };
    let mut prompts: Vec<ImportPromptData> = Vec::new();
    for i in 0..items.len()
        invariant
            doc_prompts(*doc) == Some(items@),
            prompts.len() == i,
            forall|k: int| 0 <= k < i ==> prompt_of_item(items@[k], #[trigger] prompts@[k]),
    {
        let p = match read_import_prompt(&items[i]) {
            Ok(p) => p,
            Err(e) => {
                proof {
                    assert(!item_ok(items@[i as int]));
                    if import_readable(*doc) {
                        let all = doc_prompts(*doc)->0;
                        assert(all == items@);
                        assert(item_ok(all[i as int]));
                    }
                }
                return Err(e);
            }
        };
        prompts.push(p);
    }
    proof {
        assert forall|k: int| 0 <= k < items@.len() implies item_ok(#[trigger] items@[k]) by {
            lemma_prompt_of_item_ok(items@[k], prompts@[k]);
        }
    }
    Ok(ImportData { prompts })
}

/// Imports prompts from a JSON document (an object with a `prompts` array).
/// A document that is not such JSON is invalid and imports nothing.
pub fn import_json(conn: &mut Db, json_str: &str) -> (r: AppResult<ImportResult>)
    ensures
        sql::extends(old(conn).calls(), final(conn).calls()),
        r is Ok ==> sql::writes_ok(old(conn).calls(), final(conn).calls()),
        sql::all_met(old(conn).calls(), final(conn).calls())
            && (json_document(json_str@) matches Some(doc) && import_readable(doc)) ==> r is Ok,
        r matches Ok(res) ==> res.errors.len() == 0,
        json_document(json_str@) is None ==> (r matches Err(AppError::Invalid(m))
            && crate::text::starts_with(m@, "Invalid JSON: "@)) && final(conn).calls() == old(conn).calls(),
        (json_document(json_str@) matches Some(doc) && !import_readable(doc)) ==> (r matches Err(e) && json_error(e))
            && final(conn).calls() == old(conn).calls(),
        final(conn).calls().len() > old(conn).calls().len() ==> transaction::in_transaction(old(conn).calls(), final(conn).calls(), r is Ok),
        r matches Ok(res) ==> json_document(json_str@) matches Some(doc) && exists|prompts: Seq<ImportPromptData>, checks: Seq<int>|
            #[trigger] imports_checked(final(conn).calls().drop_last(), old(conn).calls().len() + 1int, prompts, checks)
            && prompts_of_items(doc_prompts(doc)->0, prompts)
            && res.imported + res.skipped == prompts.len()
            && res.skipped == count_found(final(conn).calls().drop_last(), checks),
        r is Ok ==> json_document(json_str@) is Some && exists|prompts: Seq<ImportPromptData>, checks: Seq<int>, vpos: Seq<Seq<int>>|
            #[trigger] imports_checked(final(conn).calls().drop_last(), old(conn).calls().len() + 1int, prompts, checks)
            && #[trigger] variants_added(final(conn).calls().drop_last(), prompts, checks, vpos)
            && tags_added(final(conn).calls().drop_last(), prompts, checks)
            && prompts_of_items(doc_prompts(json_document(json_str@)->0)->0, prompts),
{
    let doc = match parse_json(json_str) {
        Ok(v) => v,
        Err(message) => {
            let e = invalid_json(message.as_str());
            proof {
                let prefix = "Invalid JSON: "@;
                assert(e->Invalid_0@.take(prefix.len() as int) =~= prefix);
            }
            return Err(e);
        }
    };
    let data = read_import_data(&doc)?;
    let ghost prompts = data.prompts@;
    let r = import_data(conn, data);
    proof {
        if r is Ok {
            let checks = choose|checks: Seq<int>| #[trigger] imports_checked(conn.calls().drop_last(),
                old(conn).calls().len() + 1int, prompts, checks) && r->Ok_0.skipped == count_found(conn.calls().drop_last(), checks);
            assert(imports_checked(conn.calls().drop_last(), old(conn).calls().len() + 1int, prompts, checks));
            let (c2, v2) = choose|c2: Seq<int>, v2: Seq<Seq<int>>| #[trigger] imports_checked(conn.calls().drop_last(),
                old(conn).calls().len() + 1int, prompts, c2) && #[trigger] variants_added(conn.calls().drop_last(), prompts, c2, v2)
                && tags_added(conn.calls().drop_last(), prompts, c2);
            assert(imports_checked(conn.calls().drop_last(), old(conn).calls().len() + 1int, prompts, c2)
                && variants_added(conn.calls().drop_last(), prompts, c2, v2) && tags_added(conn.calls().drop_last(), prompts, c2));
        }
    }
    r
}

// ---------------------------------------------------------------------
// Export
// ---------------------------------------------------------------------

/// Reading variants in order: the content of the primary one (the last seen
/// with the primary id), and every other one as an extra (label, content).
pub open spec fn split_variants(vs: Seq<crate::models::prompt::Variant>, primary: Option<String>) -> (Seq<char>, Seq<(Seq<char>, Seq<char>)>)
    decreases vs.len(),
{
    if vs.len() == 0 {
        (Seq::empty(), Seq::empty())
    } else {
        let (content, extras) = split_variants(vs.drop_last(), primary);
        let v = vs.last();
        if primary matches Some(p) && p@ == v.id@ {
            (v.content@, extras)
        } else {
            (content, extras.push((v.label@, v.content@)))
        }
    }
}

/// The content exported for a prompt: its primary variant's, or the first
/// variant's when no primary one was found (or it is empty).
pub open spec fn exported_content(pwv: crate::models::prompt::PromptWithVariants) -> Seq<char> {
    let (content, _) = split_variants(pwv.variants@, pwv.prompt.primary_variant_id);
    if content.len() == 0 && pwv.variants.len() > 0 { pwv.variants@[0].content@ } else { content }
}

pub open spec fn variants_view(vs: Seq<ExportVariant>) -> Seq<(Seq<char>, Seq<char>)> {
    vs.map_values(|v: ExportVariant| (v.label@, v.content@))
}

/// `e` is how a prompt is exported.
pub open spec fn exported_as(pwv: crate::models::prompt::PromptWithVariants, e: ExportPrompt) -> bool {
    &&& e.title == pwv.prompt.title
    &&& e.description == pwv.prompt.description
    &&& e.content@ == exported_content(pwv)
    &&& strings_view(e.tags@) == pwv.tags@.map_values(|t: crate::models::tag::Tag| t.name@)
    &&& e.is_favorite == pwv.prompt.is_favorite
    &&& variants_view(e.variants@) == split_variants(pwv.variants@, pwv.prompt.primary_variant_id).1
}

fn opt_string_eq(a: &Option<String>, b: &String) -> (r: bool)
    ensures
        r == (*a matches Some(x) && x@ == b@),
{
    match a {
        Some(x) => *x == *b,
        None => false,
    }
}

/// How a prompt is exported: its fields, its primary content, its tag
/// names, and its other variants.
pub fn export_prompt_of(pwv: &crate::models::prompt::PromptWithVariants) -> (e: ExportPrompt)
    ensures
        exported_as(*pwv, e),
{
    let ghost vs = pwv.variants@;
    let mut content = String::new();
    let mut extras: Vec<ExportVariant> = Vec::new();
    for i in 0..pwv.variants.len()
        invariant
            vs == pwv.variants@,
            (content@, variants_view(extras@)) == split_variants(vs.take(i as int), pwv.prompt.primary_variant_id),
    {
        proof {
            assert(vs.take(i + 1).drop_last() =~= vs.take(i as int));
            assert(vs.take(i + 1).last() == vs[i as int]);
        }
        let v = &pwv.variants[i];
        if opt_string_eq(&pwv.prompt.primary_variant_id, &v.id) {
            content = v.content.clone();
        } else {
            extras.push(ExportVariant { label: v.label.clone(), content: v.content.clone() });
            proof {
                assert(variants_view(extras@) =~= split_variants(vs.take(i as int), pwv.prompt.primary_variant_id).1.push((v.label@, v.content@)));
            }
        }
    }
    proof { assert(vs.take(pwv.variants.len() as int) =~= vs); }
    if content.as_str().is_empty() && pwv.variants.len() > 0 {
        content = pwv.variants[0].content.clone();
    }
    let mut tags: Vec<String> = Vec::new();
    for i in 0..pwv.tags.len()
        invariant
            strings_view(tags@) == pwv.tags@.take(i as int).map_values(|t: crate::models::tag::Tag| t.name@),
    {
        let ghost prev = tags@;
        let name = pwv.tags[i].name.clone();
        tags.push(name);
        proof {
            assert(tags@ == prev.push(name));
            assert(pwv.tags@.take(i + 1) =~= pwv.tags@.take(i as int).push(pwv.tags@[i as int]));
            assert(strings_view(tags@) =~= strings_view(prev).push(name@));
            assert(pwv.tags@.take(i + 1).map_values(|t: crate::models::tag::Tag| t.name@)
                =~= pwv.tags@.take(i as int).map_values(|t: crate::models::tag::Tag| t.name@).push(pwv.tags@[i as int].name@));
            assert(strings_view(tags@) =~= pwv.tags@.take(i + 1).map_values(|t: crate::models::tag::Tag| t.name@));
        }
    }
    proof {
        assert(pwv.tags@.take(pwv.tags.len() as int) =~= pwv.tags@);
    }
    ExportPrompt {
        title: pwv.prompt.title.clone(),
        description: pwv.prompt.description.clone(),
        content,
        tags,
        is_favorite: pwv.prompt.is_favorite,
        variants: extras,
    }
}

/// Reads the ids of every active prompt, most recently updated first.
pub const EXPORT_IDS_SQL: &'static str = "SELECT id FROM prompts WHERE deleted_at IS NULL ORDER BY updated_at DESC";

/// The prompt read at position `j` (by `prompt_service::get_prompt_by_id`)
/// had the given id and is `pwv`, whose export is `e`.
pub open spec fn exported_from(calls: Seq<SqlCall>, j: int, id: Seq<char>, pwv: crate::models::prompt::PromptWithVariants, e: ExportPrompt) -> bool {
    &&& sql::text_call(calls, j, prompt_service::PROMPT_SQL@, seq![id])
    &&& sql::first_row(calls[j].outcome) matches Some(row) && prompt_service::prompt_row(row, pwv.prompt)
    &&& exported_as(pwv, e)
}

/// `prompts` are, in order, the exports of the prompts read for the ids the
/// query at position `n` answered, one each.
pub open spec fn exports_answered(calls: Seq<SqlCall>, n: int, ids: Seq<Seq<char>>, prompts: Seq<ExportPrompt>) -> bool {
    &&& calls[n].outcome is Rows
    &&& ids == crate::services::playbook_service::ids_answered(calls[n].outcome)
    &&& prompts.len() == ids.len()
    &&& forall|i: int| 0 <= i < ids.len() ==> #[trigger] export_of_id(calls, ids[i], prompts[i])
}

/// `e` is the export of a prompt some statement read for `id`.
pub open spec fn export_of_id(calls: Seq<SqlCall>, id: Seq<char>, e: ExportPrompt) -> bool {
    exists|j: int, pwv: crate::models::prompt::PromptWithVariants| #[trigger] exported_from(calls, j, id, pwv, e)
}

/// The export of every active prompt, most recently updated first, in
/// format version "1.0": one read of the active prompts' ids, then one
/// export entry per id answered, in that order, each the export of the
/// prompt read for that id.
pub fn export_data(conn: &mut Db) -> (r: AppResult<ExportData>)
    ensures
        sql::extends(old(conn).calls(), final(conn).calls()),
        r is Ok ==> sql::writes_ok(old(conn).calls(), final(conn).calls()),
        sql::all_met(old(conn).calls(), final(conn).calls()) ==> r is Ok,
        sql::text_call(final(conn).calls(), old(conn).calls().len() as int, EXPORT_IDS_SQL@, seq![]),
        r matches Ok(d) ==> d.version@ == "1.0"@,
        r matches Ok(d) ==> exports_answered(final(conn).calls(), old(conn).calls().len() as int,
            crate::services::playbook_service::ids_answered(final(conn).calls()[old(conn).calls().len() as int].outcome), d.prompts@),
{
    let ghost n = conn.calls().len() as int;
    let rows = sql::query_all(
        conn,
        EXPORT_IDS_SQL,
        &Vec::new(),
        &[sql::Kind::Text])?;
    let ghost c1 = conn.calls();
    let ghost answered = sql::rows_view(rows@);
    let ghost ids = crate::services::playbook_service::ids_answered(SqlOutcome::Rows(answered));
    let ghost mut js: Seq<int> = Seq::empty();
    let ghost mut pwvs: Seq<crate::models::prompt::PromptWithVariants> = Seq::empty();
    let mut prompts: Vec<ExportPrompt> = Vec::new();
    for i in 0..rows.len()
        invariant
            sql::extends(old(conn).calls(), conn.calls()),
            sql::extends(c1, conn.calls()),
            c1.len() == n + 1,
            n == old(conn).calls().len(),
            sql::text_call(c1, n, EXPORT_IDS_SQL@, seq![]),
            c1[n].outcome == SqlOutcome::Rows(answered),
            answered == sql::rows_view(rows@),
            ids == crate::services::playbook_service::ids_answered(SqlOutcome::Rows(answered)),
            forall|k: int| 0 <= k < rows.len() ==> #[trigger] rows[k].len() == 1,
            prompts.len() == i,
            js.len() == i,
            pwvs.len() == i,
            forall|k: int| 0 <= k < i ==> exported_from(conn.calls(), #[trigger] js[k], ids[k], pwvs[k], prompts@[k]),
            sql::writes_ok(old(conn).calls(), conn.calls()),
            sql::rows_fit(answered, seq![sql::Kind::Text]),
    {
        proof { assert(answered[i as int] == rows@[i as int]@); }
        let id = sql::col_text(&rows[i], 0)?;
        let ghost before = conn.calls();
        let pwv = prompt_service::get_prompt_by_id(conn, id.as_str())?;
        let e = export_prompt_of(&pwv);
        proof {
            assert forall|k: int| 0 <= k < i implies exported_from(conn.calls(), #[trigger] js[k], ids[k], pwvs[k], prompts@[k]) by {
                assert(conn.calls()[js[k]] == before[js[k]]);
            }
            assert(ids[i as int] == id@);
            js = js.push(before.len() as int);
            pwvs = pwvs.push(pwv);
        }
        prompts.push(e);
    }
    proof {
        assert(conn.calls()[n] == c1[n]);
        assert(ids.len() == answered.len());
    }
    let ghost pv = prompts@;
    let d = ExportData {
        version: "1.0".to_string(),
        exported_at: crate::ids::now_rfc3339(),
        prompts,
    };
    proof {
        let calls = conn.calls();
        assert(d.prompts@ == pv);
        let answered_ids = crate::services::playbook_service::ids_answered(calls[n].outcome);
        assert forall|i: int| 0 <= i < answered_ids.len() implies #[trigger] export_of_id(calls, answered_ids[i], d.prompts@[i]) by {
            assert(answered_ids[i] == ids[i]);
            assert(exported_from(calls, js[i], answered_ids[i], pwvs[i], d.prompts@[i]));
        }
        assert(exports_answered(calls, n, answered_ids, d.prompts@));
    }
    Ok(d)
}

/// `v` is the JSON string `t`.
pub open spec fn json_text(v: JsonValue, t: Seq<char>) -> bool {
    v matches JsonValue::Str(s) && s@ == t
}

/// `m` is the member `key` of an object.
pub open spec fn keyed(m: (String, JsonValue), key: Seq<char>) -> bool {
    m.0@ == key
}

/// The document of an exported variant: `label`, then `content`.
pub open spec fn variant_doc(v: JsonValue, e: ExportVariant) -> bool {
    v matches JsonValue::Object(ms) && ms@.len() == 2
        && keyed(ms@[0], "label"@) && json_text(ms@[0].1, e.label@)
        && keyed(ms@[1], "content"@) && json_text(ms@[1].1, e.content@)
}

/// The document of an exported prompt: `title`, `description` (text or
/// null), `content`, `tags`, `is_favorite` and `variants`, in that order.
pub open spec fn prompt_doc(v: JsonValue, p: ExportPrompt) -> bool {
    v matches JsonValue::Object(ms) && ms@.len() == 6 && {
        &&& keyed(ms@[0], "title"@) && json_text(ms@[0].1, p.title@)
        &&& keyed(ms@[1], "description"@) && match p.description {
            Some(d) => json_text(ms@[1].1, d@),
            None => ms@[1].1 == JsonValue::Null,
        }
        &&& keyed(ms@[2], "content"@) && json_text(ms@[2].1, p.content@)
        &&& keyed(ms@[3], "tags"@) && ms@[3].1 is Array && ms@[3].1->Array_0@.len() == p.tags@.len()
        &&& forall|k: int| 0 <= k < p.tags@.len() ==> json_text(#[trigger] ms@[3].1->Array_0@[k], p.tags@[k]@)
        &&& keyed(ms@[4], "is_favorite"@) && ms@[4].1 == JsonValue::Bool(p.is_favorite)
        &&& keyed(ms@[5], "variants"@) && ms@[5].1 is Array && ms@[5].1->Array_0@.len() == p.variants@.len()
        &&& forall|k: int| 0 <= k < p.variants@.len() ==> variant_doc(#[trigger] ms@[5].1->Array_0@[k], p.variants@[k])
    }
}

/// The document of an export: `version`, `exported_at`, then `prompts`.
pub open spec fn export_doc(v: JsonValue, version: Seq<char>, prompts: Seq<ExportPrompt>) -> bool {
    v matches JsonValue::Object(ms) && {
        &&& ms@.len() == 3
        &&& keyed(ms@[0], "version"@) && json_text(ms@[0].1, version)
        &&& keyed(ms@[1], "exported_at"@) && ms@[1].1 is Str
        &&& keyed(ms@[2], "prompts"@) && ms@[2].1 is Array && ms@[2].1->Array_0@.len() == prompts.len()
        &&& forall|k: int| 0 <= k < prompts.len() ==> prompt_doc(#[trigger] ms@[2].1->Array_0@[k], prompts[k])
    }
}

fn text_doc(s: &String) -> (v: JsonValue)
    ensures
        json_text(v, s@),
{
    JsonValue::Str(s.clone())
}

fn member(key: &str, v: JsonValue) -> (r: (String, JsonValue))
    ensures
        r.0@ == key@,
        r.1 == v,
{
    (key.to_string(), v)
}

fn variant_document(e: &ExportVariant) -> (v: JsonValue)
    ensures
        variant_doc(v, *e),
{
    let mut m: Vec<(String, JsonValue)> = Vec::new();
    m.push(member("label", text_doc(&e.label)));
    m.push(member("content", text_doc(&e.content)));
    JsonValue::Object(m)
}

fn prompt_document(p: &ExportPrompt) -> (v: JsonValue)
    ensures
        prompt_doc(v, *p),
{
    let mut tags: Vec<JsonValue> = Vec::new();
    for j in 0..p.tags.len()
        invariant
            tags.len() == j,
            forall|k: int| 0 <= k < j ==> json_text(#[trigger] tags@[k], p.tags@[k]@),
    {
        tags.push(text_doc(&p.tags[j]));
    }
    let mut variants: Vec<JsonValue> = Vec::new();
    for j in 0..p.variants.len()
        invariant
            variants.len() == j,
            forall|k: int| 0 <= k < j ==> variant_doc(#[trigger] variants@[k], p.variants@[k]),
    {
        variants.push(variant_document(&p.variants[j]));
    }
    let description = match &p.description {
        Some(d) => text_doc(d),
        None => JsonValue::Null,
    };
    let mut m: Vec<(String, JsonValue)> = Vec::new();
    m.push(member("title", text_doc(&p.title)));
    m.push(member("description", description));
    m.push(member("content", text_doc(&p.content)));
    m.push(member("tags", JsonValue::Array(tags)));
    m.push(member("is_favorite", JsonValue::Bool(p.is_favorite)));
    m.push(member("variants", JsonValue::Array(variants)));
    JsonValue::Object(m)
}

/// The JSON document of an export.
pub fn export_document(data: &ExportData) -> (v: JsonValue)
    ensures
        export_doc(v, data.version@, data.prompts@),
{
    let mut prompts: Vec<JsonValue> = Vec::new();
    for i in 0..data.prompts.len()
        invariant
            prompts.len() == i,
            forall|k: int| 0 <= k < i ==> prompt_doc(#[trigger] prompts@[k], data.prompts@[k]),
    {
        prompts.push(prompt_document(&data.prompts[i]));
    }
    let mut m: Vec<(String, JsonValue)> = Vec::new();
    m.push(member("version", text_doc(&data.version)));
    m.push(member("exported_at", text_doc(&data.exported_at)));
    m.push(member("prompts", JsonValue::Array(prompts)));
    JsonValue::Object(m)
}

/// Every active prompt as a pretty-printed JSON export: the statements are
/// those of `export_data`, and the text is what `serde_json` writes for the
/// export document of the prompts they answered, at version "1.0".
pub fn export_json(conn: &mut Db) -> (r: AppResult<String>)
    ensures
        sql::extends(old(conn).calls(), final(conn).calls()),
        r is Ok ==> sql::writes_ok(old(conn).calls(), final(conn).calls()),
        sql::all_met(old(conn).calls(), final(conn).calls()) ==> r is Ok,
        sql::text_call(final(conn).calls(), old(conn).calls().len() as int, EXPORT_IDS_SQL@, seq![]),
        r matches Ok(text) ==> exists|prompts: Seq<ExportPrompt>, doc: JsonValue|
            #![trigger exports_answered(final(conn).calls(), old(conn).calls().len() as int,
                crate::services::playbook_service::ids_answered(final(conn).calls()[old(conn).calls().len() as int].outcome), prompts), export_doc(doc, "1.0"@, prompts)]
            exports_answered(final(conn).calls(), old(conn).calls().len() as int,
                crate::services::playbook_service::ids_answered(final(conn).calls()[old(conn).calls().len() as int].outcome), prompts)
            && export_doc(doc, "1.0"@, prompts) && text@ == json_pretty(doc),
{
    let data = export_data(conn)?;
    let doc = export_document(&data);
    let text = to_pretty_json(&doc);
    proof {
        assert(exports_answered(conn.calls(), old(conn).calls().len() as int,
            crate::services::playbook_service::ids_answered(conn.calls()[old(conn).calls().len() as int].outcome), data.prompts@));
        assert(export_doc(doc, "1.0"@, data.prompts@));
    }
    Ok(text)
}

// ---------------------------------------------------------------------
// Markdown import
// ---------------------------------------------------------------------

/// `r` counts exactly one outcome: imported, skipped, or one error.
pub open spec fn one_outcome(r: ImportResult) -> bool {
    r.imported + r.skipped + r.errors.len() == 1
}

/// "{name}: {detail}".
fn labelled(name: &str, detail: &str) -> (s: String)
    ensures
        s@ == name@ + ": "@ + detail@,
{
    let mut s = name.to_string();
    crate::text::push_str(&mut s, ": ");
    crate::text::push_str(&mut s, detail);
    s
}

/// `req` asks for the prompt a markdown file describes: its title, tags,
/// favorite flag and body, with no description and the default label.
pub open spec fn markdown_request(req: CreatePromptRequest, title: Seq<char>, tags: Seq<Seq<char>>, favorite: bool, body: Seq<char>) -> bool {
    &&& req.title@ == title
    &&& req.description is None
    &&& req.content@ == body
    &&& req.variant_label is None
    &&& strings_view(req.tags@) == tags
    &&& req.is_favorite == favorite
}

/// From position `n`, the prompt a markdown file describes was created in
/// one transaction, which committed exactly when `imported`.
pub open spec fn markdown_created(calls: Seq<SqlCall>, n: int, title: Seq<char>, tags: Seq<Seq<char>>, favorite: bool, body: Seq<char>, imported: bool) -> bool {
    &&& transaction::in_transaction(calls.take(n), calls, imported)
    &&& calls.len() > n + 1 ==> exists|req: CreatePromptRequest, c: Option<crate::models::prompt::PromptWithVariants>|
        #[trigger] prompt_service::creation_writes(calls, n + 1, req, c)
        && markdown_request(req, title, tags, favorite, body)
        && (c is Some <==> imported)
        && (c matches Some(cc) ==> prompt_service::created_as_requested(req, cc))
        && (c matches Some(cc) ==> exists|qs: Seq<int>|
            #[trigger] crate::services::tag_service::tags_linked(calls, n + 1, cc.prompt.id@, tags, qs))
}

/// What importing one markdown file did, with its statements from position
/// `n` to the end of `calls`: exactly one outcome; an empty body is one
/// error and asks nothing; otherwise a duplicate check by title and body,
/// after which a duplicate is one skip, and anything else one creation
/// transaction, imported exactly when it committed.
pub open spec fn markdown_outcome(calls: Seq<SqlCall>, n: int, filename: Seq<char>, content: Seq<char>, res: ImportResult) -> bool {
    let (title, tags, favorite, body) = parsed_markdown(filename, content);
    &&& one_outcome(res)
    &&& trim(body).len() == 0 ==> res.imported == 0 && res.skipped == 0 && res.errors.len() == 1
        && res.errors[0]@ == filename + ": "@ + "empty content"@ && calls.len() == n
    &&& trim(body).len() > 0 ==> {
        &&& duplicate_check(calls, n, title, body)
        &&& found_duplicate(calls[n]) ==> res.skipped == 1 && calls.len() == n + 1
        &&& !found_duplicate(calls[n]) ==> res.skipped == 0 && markdown_created(calls, n + 1, title, tags, favorite, body, res.imported == 1)
    }
}

/// The files imported, summed over per-file outcomes.
pub open spec fn sum_imported(outs: Seq<ImportResult>) -> nat
    decreases outs.len(),
{
    if outs.len() == 0 { 0 } else { sum_imported(outs.drop_last()) + outs.last().imported as nat }
}

/// The files skipped, summed over per-file outcomes.
pub open spec fn sum_skipped(outs: Seq<ImportResult>) -> nat
    decreases outs.len(),
{
    if outs.len() == 0 { 0 } else { sum_skipped(outs.drop_last()) + outs.last().skipped as nat }
}

/// The per-file errors, one file after another.
pub open spec fn all_errors(outs: Seq<ImportResult>) -> Seq<String>
    decreases outs.len(),
{
    if outs.len() == 0 { Seq::empty() } else { all_errors(outs.drop_last()) + outs.last().errors@ }
}

/// From position `bounds[0]`, each file `files[i]` was imported by the
/// statements between `bounds[i]` and `bounds[i + 1]`, with outcome `outs[i]`.
pub open spec fn files_imported(calls: Seq<SqlCall>, files: Seq<(String, String)>, bounds: Seq<int>, outs: Seq<ImportResult>) -> bool {
    &&& bounds.len() == files.len() + 1
    &&& outs.len() == files.len()
    &&& forall|i: int| 0 <= i < bounds.len() ==> 0 <= #[trigger] bounds[i]
    &&& forall|i: int| 0 <= i < files.len() ==> bounds[i] <= #[trigger] bounds[i + 1] <= calls.len()
    &&& forall|i: int| 0 <= i < files.len() ==> #[trigger] markdown_outcome(calls.take(bounds[i + 1]), bounds[i],
        files[i].0@, files[i].1@, outs[i])
}

/// A batch's counts and errors are those of its files: every file counts
/// exactly once, as imported, skipped or one error.
pub proof fn lemma_batch_counts_every_file(outs: Seq<ImportResult>)
    requires
        forall|i: int| 0 <= i < outs.len() ==> one_outcome(#[trigger] outs[i]),
    ensures
        sum_imported(outs) + sum_skipped(outs) + all_errors(outs).len() == outs.len(),
    decreases outs.len(),
{
    if outs.len() > 0 {
        let prev = outs.drop_last();
        assert forall|i: int| 0 <= i < prev.len() implies one_outcome(#[trigger] prev[i]) by {
            assert(prev[i] == outs[i]);
        }
        lemma_batch_counts_every_file(prev);
        assert(one_outcome(outs[outs.len() - 1]));
    }
}

/// Imports one markdown file: an empty body is an error, a duplicate (by
/// title and body) is skipped, anything else becomes the prompt its front
/// matter and body describe (a failure to create it is reported as an error,
/// not returned).
pub fn import_markdown(conn: &mut Db, filename: &str, content: &str) -> (r: AppResult<ImportResult>)
    ensures
        sql::extends(old(conn).calls(), final(conn).calls()),
        r is Ok,
        r matches Ok(res) ==> one_outcome(res),
        ({
            let (title, tags, favorite, body) = parsed_markdown(filename@, content@);
            trim(body).len() == 0 ==> (r matches Ok(res) && res.imported == 0 && res.skipped == 0
                && res.errors.len() == 1 && res.errors[0]@ == filename@ + ": "@ + "empty content"@)
        }),
        ({
            let (title, tags, favorite, body) = parsed_markdown(filename@, content@);
            let n = old(conn).calls().len() as int;
            let calls = final(conn).calls();
            trim(body).len() > 0 ==> {
                &&& duplicate_check(calls, n, title, body)
                &&& found_duplicate(calls[n]) ==> (r matches Ok(res) && res.skipped == 1) && calls.len() == n + 1
                &&& !found_duplicate(calls[n]) ==> markdown_created(calls, n + 1, title, tags, favorite, body, r->Ok_0.imported == 1)
            }
        }),
        markdown_outcome(final(conn).calls(), old(conn).calls().len() as int, filename@, content@, r->Ok_0),
{
    let (title, tags, favorite, body) = parse_markdown_frontmatter(filename, content);
    let mut result = empty_result();
    let body_chars = chars_of(body.as_str());
    let body_trimmed = trimmed(body_chars.as_slice(), 0, body_chars.len());
    proof { assert(body_chars@.subrange(0, body_chars@.len() as int) =~= body_chars@); }
    if body_trimmed.len() == 0 {
        let label = labelled(filename, "empty content");
        let ghost label_view = label@;
        result.errors.push(label);
        proof { assert(result.errors[0]@ == label_view); }
        return Ok(result);
    }
    if is_duplicate(conn, title.as_str(), body.as_str()) {
        result.skipped = 1;
        return Ok(result);
    }
    let ghost c1 = conn.calls();
    let req = CreatePromptRequest {
        title,
        description: None,
        content: body,
        variant_label: None,
        tags,
        is_favorite: favorite,
    };
    let ghost greq = req;
    let created = prompt_service::create_prompt(conn, req);
    let ghost gc = if created is Ok { Some(created->Ok_0) } else { None::<crate::models::prompt::PromptWithVariants> };
    match created {
        Ok(_) => {
            result.imported = 1;
        }
        Err(e) => {
            let message = e.ipc_message();
            result.errors.push(labelled(filename, message.as_str()));
        }
    }
    proof {
        let calls = conn.calls();
        let n = c1.len() as int;
        assert(calls.take(n) =~= c1);
        assert(calls[n - 1] == c1[n - 1]);
        if calls.len() > n + 1 {
            assert(prompt_service::creation_writes(calls, n + 1, greq, gc));
            if gc is Some {
                let cc = gc->0;
                let qs = choose|qs: Seq<int>| #[trigger] crate::services::tag_service::tags_linked(calls, n + 1, cc.prompt.id@,
                    strings_view(greq.tags@), qs);
                assert(crate::services::tag_service::tags_linked(calls, n + 1, cc.prompt.id@, strings_view(greq.tags@), qs));
            }
        }
    }
    Ok(result)
}

/// Imports markdown files one by one, adding up their outcomes; every file
/// counts exactly once.
pub fn import_markdown_batch(conn: &mut Db, files: Vec<(String, String)>) -> (r: AppResult<ImportResult>)
    ensures
        sql::extends(old(conn).calls(), final(conn).calls()),
        r is Ok,
        r matches Ok(res) ==> res.imported + res.skipped + res.errors.len() == files.len(),
        r matches Ok(res) ==> exists|bounds: Seq<int>, outs: Seq<ImportResult>|
            #[trigger] files_imported(final(conn).calls(), files@, bounds, outs)
            && bounds[0] == old(conn).calls().len()
            && bounds.last() == final(conn).calls().len()
            && res.imported == sum_imported(outs)
            && res.skipped == sum_skipped(outs)
            && res.errors@ == all_errors(outs),
{
    let mut aggregate = empty_result();
    let n = files.len();
    let ghost mut bounds: Seq<int> = seq![old(conn).calls().len() as int];
    let ghost mut outs: Seq<ImportResult> = Seq::empty();
    for i in 0..n
        invariant
            sql::extends(old(conn).calls(), conn.calls()),
            n == files.len(),
            files_imported(conn.calls(), files@.take(i as int), bounds, outs),
            bounds[0] == old(conn).calls().len(),
            bounds.last() == conn.calls().len(),
            aggregate.imported == sum_imported(outs),
            aggregate.skipped == sum_skipped(outs),
            aggregate.errors@ == all_errors(outs),
            forall|k: int| 0 <= k < outs.len() ==> one_outcome(#[trigger] outs[k]),
            outs.len() == i,
            aggregate.imported + aggregate.skipped + aggregate.errors.len() == i,
    {
        let (filename, content) = (&files[i].0, &files[i].1);
        let ghost before = conn.calls();
        let imported = import_markdown(conn, filename.as_str(), content.as_str());
        match imported {
            Ok(r) => {
                let ghost gr = r;
                aggregate.imported = aggregate.imported + r.imported;
                aggregate.skipped = aggregate.skipped + r.skipped;
                let mut errors = r.errors;
                aggregate.errors.append(&mut errors);
                proof {
                    let r = gr;
                    let new_bounds = bounds.push(conn.calls().len() as int);
                    let new_outs = outs.push(r);
                    let fs = files@.take(i + 1);
                    assert(new_outs.drop_last() =~= outs);
                    assert(new_outs.last() == r);
                    assert(sum_imported(new_outs) == sum_imported(outs) + r.imported);
                    assert(sum_skipped(new_outs) == sum_skipped(outs) + r.skipped);
                    assert(all_errors(new_outs) == all_errors(outs) + r.errors@);
                    assert(fs.drop_last() =~= files@.take(i as int));
                    assert(conn.calls().take(conn.calls().len() as int) =~= conn.calls());
                    assert forall|m: int| 0 <= m < fs.len() implies new_bounds[m] <= #[trigger] new_bounds[m + 1] <= conn.calls().len() by {
                        if m < i {
                            assert(new_bounds[m] == bounds[m] && new_bounds[m + 1] == bounds[m + 1]);
                        }
                    }
                    assert forall|m: int| 0 <= m < fs.len() implies #[trigger] markdown_outcome(conn.calls().take(new_bounds[m + 1]), new_bounds[m],
                        fs[m].0@, fs[m].1@, new_outs[m]) by {
                        if m < i {
                            assert(new_bounds[m] == bounds[m] && new_bounds[m + 1] == bounds[m + 1]);
                            assert(fs[m] == files@.take(i as int)[m]);
                            assert(new_outs[m] == outs[m]);
                            assert(bounds[m] <= bounds[m + 1] <= before.len());
                            assert forall|j: int| 0 <= j < bounds[m + 1] implies #[trigger] conn.calls().take(bounds[m + 1])[j] == before.take(bounds[m + 1])[j] by {
                                assert(conn.calls()[j] == before[j]);
                            }
                            assert(conn.calls().take(bounds[m + 1]) =~= before.take(bounds[m + 1]));
                        } else {
                            assert(fs[m] == files@[i as int]);
                            assert(new_bounds[m] == before.len());
                        }
                    }
                    assert forall|m: int| 0 <= m < new_bounds.len() implies 0 <= #[trigger] new_bounds[m] by {
                        if m < bounds.len() {
                            assert(new_bounds[m] == bounds[m]);
                        }
                    }
                    assert(files_imported(conn.calls(), fs, new_bounds, new_outs));
                    bounds = new_bounds;
                    outs = new_outs;
                }
            }
            Err(e) => {
                let message = e.ipc_message();
                aggregate.errors.push(labelled(filename.as_str(), message.as_str()));
            }
        }
    }
    proof {
        assert(files@.take(n as int) =~= files@);
        lemma_batch_counts_every_file(outs);
    }
    Ok(aggregate)
}

}
