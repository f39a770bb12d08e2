//! Imported page history: which imported revisions are accepted, and how
//! they are matched with those already stored.

use crate::error::{Error, ErrorType, error_is};
use crate::search::strings_view;
use crate::text::{chars_eq, str_chars, string_from_chars};
use vstd::prelude::*;

verus! {

/// Refuses an import without a source page or revisions.
pub open spec fn identity_required_message() -> Seq<char> {
    seq!['s', 'o', 'u', 'r', 'c', 'e', ' ', 'p', 'a', 'g', 'e', ' ', 'i', 'd', 'e', 'n', 't', 'i', 't', 'y', ' ', 'a', 'n', 'd', ' ', 'r', 'e', 'v', 'i', 's', 'i', 'o', 'n', 's', ' ', 'a', 'r', 'e', ' ', 'r', 'e', 'q', 'u', 'i', 'r', 'e', 'd']
}

pub fn identity_required_message_chars() -> (out: Vec<char>)
    ensures
        out@ == identity_required_message(),
{
    vec!['s', 'o', 'u', 'r', 'c', 'e', ' ', 'p', 'a', 'g', 'e', ' ', 'i', 'd', 'e', 'n', 't', 'i', 't', 'y', ' ', 'a', 'n', 'd', ' ', 'r', 'e', 'v', 'i', 's', 'i', 'o', 'n', 's', ' ', 'a', 'r', 'e', ' ', 'r', 'e', 'q', 'u', 'i', 'r', 'e', 'd']
}

/// Refuses a revision with a bad identity.
pub open spec fn invalid_identity_message() -> Seq<char> {
    seq!['i', 'n', 'v', 'a', 'l', 'i', 'd', ' ', 's', 'o', 'u', 'r', 'c', 'e', ' ', 'r', 'e', 'v', 'i', 's', 'i', 'o', 'n', ' ', 'i', 'd', 'e', 'n', 't', 'i', 't', 'y']
}

pub fn invalid_identity_message_chars() -> (out: Vec<char>)
    ensures
        out@ == invalid_identity_message(),
{
    vec!['i', 'n', 'v', 'a', 'l', 'i', 'd', ' ', 's', 'o', 'u', 'r', 'c', 'e', ' ', 'r', 'e', 'v', 'i', 's', 'i', 'o', 'n', ' ', 'i', 'd', 'e', 'n', 't', 'i', 't', 'y']
}

/// Refuses a request naming a revision twice.
pub open spec fn duplicate_identity_message() -> Seq<char> {
    seq!['d', 'u', 'p', 'l', 'i', 'c', 'a', 't', 'e', ' ', 's', 'o', 'u', 'r', 'c', 'e', ' ', 'r', 'e', 'v', 'i', 's', 'i', 'o', 'n', ' ', 'i', 'd', 'e', 'n', 't', 'i', 't', 'y', ' ', 'i', 'n', ' ', 'r', 'e', 'q', 'u', 'e', 's', 't']
}

pub fn duplicate_identity_message_chars() -> (out: Vec<char>)
    ensures
        out@ == duplicate_identity_message(),
{
    vec!['d', 'u', 'p', 'l', 'i', 'c', 'a', 't', 'e', ' ', 's', 'o', 'u', 'r', 'c', 'e', ' ', 'r', 'e', 'v', 'i', 's', 'i', 'o', 'n', ' ', 'i', 'd', 'e', 'n', 't', 'i', 't', 'y', ' ', 'i', 'n', ' ', 'r', 'e', 'q', 'u', 'e', 's', 't']
}

/// Refuses a revision without its raw source.
pub open spec fn raw_source_required_message() -> Seq<char> {
    seq!['h', 'i', 's', 't', 'o', 'r', 'y', ' ', 'r', 'e', 'q', 'u', 'i', 'r', 'e', 's', ' ', 'i', 't', 's', ' ', 'r', 'a', 'w', ' ', 's', 'o', 'u', 'r', 'c', 'e', ' ', 'd', 'i', 's', 'p', 'l', 'a', 'y', ' ', 'a', 'n', 'd', ' ', 'e', 'x', 'p', 'l', 'i', 'c', 'i', 't', ' ', 'r', 'e', 'p', 'r', 'e', 's', 'e', 'n', 't', 'a', 't', 'i', 'o', 'n']
}

pub fn raw_source_required_message_chars() -> (out: Vec<char>)
    ensures
        out@ == raw_source_required_message(),
{
    vec!['h', 'i', 's', 't', 'o', 'r', 'y', ' ', 'r', 'e', 'q', 'u', 'i', 'r', 'e', 's', ' ', 'i', 't', 's', ' ', 'r', 'a', 'w', ' ', 's', 'o', 'u', 'r', 'c', 'e', ' ', 'd', 'i', 's', 'p', 'l', 'a', 'y', ' ', 'a', 'n', 'd', ' ', 'e', 'x', 'p', 'l', 'i', 'c', 'i', 't', ' ', 'r', 'e', 'p', 'r', 'e', 's', 'e', 'n', 't', 'a', 't', 'i', 'o', 'n']
}

/// The one representation imported history may have.
pub open spec fn display_decoded() -> Seq<char> {
    seq!['d', 'i', 's', 'p', 'l', 'a', 'y', '-', 'd', 'e', 'c', 'o', 'd', 'e', 'd', '-', 'n', 'o', 't', '-', 'b', 'y', 't', 'e', '-', 'e', 'x', 'a', 'c', 't']
}

pub fn display_decoded_chars() -> (out: Vec<char>)
    ensures
        out@ == display_decoded(),
{
    vec!['d', 'i', 's', 'p', 'l', 'a', 'y', '-', 'd', 'e', 'c', 'o', 'd', 'e', 'd', '-', 'n', 'o', 't', '-', 'b', 'y', 't', 'e', '-', 'e', 'x', 'a', 'c', 't']
}

/// Refuses a history page size out of bounds.
pub open spec fn limit_message() -> Seq<char> {
    seq!['h', 'i', 's', 't', 'o', 'r', 'y', ' ', 'p', 'a', 'g', 'e', ' ', 'l', 'i', 'm', 'i', 't', ' ', 'm', 'u', 's', 't', ' ', 'b', 'e', ' ', 'b', 'e', 't', 'w', 'e', 'e', 'n', ' ', '1', ' ', 'a', 'n', 'd', ' ', '1', '0', '0']
}

pub fn limit_message_chars() -> (out: Vec<char>)
    ensures
        out@ == limit_message(),
{
    vec!['h', 'i', 's', 't', 'o', 'r', 'y', ' ', 'p', 'a', 'g', 'e', ' ', 'l', 'i', 'm', 'i', 't', ' ', 'm', 'u', 's', 't', ' ', 'b', 'e', ' ', 'b', 'e', 't', 'w', 'e', 'e', 'n', ' ', '1', ' ', 'a', 'n', 'd', ' ', '1', '0', '0']
}

/// Refuses history from another source page.
pub open spec fn identity_changed_message() -> Seq<char> {
    seq!['p', 'a', 'g', 'e', ' ', 'a', 'l', 'r', 'e', 'a', 'd', 'y', ' ', 'h', 'a', 's', ' ', 'a', ' ', 'd', 'i', 'f', 'f', 'e', 'r', 'e', 'n', 't', ' ', 's', 'o', 'u', 'r', 'c', 'e', ' ', 'h', 'i', 's', 't', 'o', 'r', 'y', ' ', 'i', 'd', 'e', 'n', 't', 'i', 't', 'y']
}

pub fn identity_changed_message_chars() -> (out: Vec<char>)
    ensures
        out@ == identity_changed_message(),
{
    vec!['p', 'a', 'g', 'e', ' ', 'a', 'l', 'r', 'e', 'a', 'd', 'y', ' ', 'h', 'a', 's', ' ', 'a', ' ', 'd', 'i', 'f', 'f', 'e', 'r', 'e', 'n', 't', ' ', 's', 'o', 'u', 'r', 'c', 'e', ' ', 'h', 'i', 's', 't', 'o', 'r', 'y', ' ', 'i', 'd', 'e', 'n', 't', 'i', 't', 'y']
}

/// Refuses a revision that differs from the one stored.
pub open spec fn conflict_message() -> Seq<char> {
    seq!['i', 'm', 'p', 'o', 'r', 't', 'e', 'd', ' ', 'r', 'e', 'v', 'i', 's', 'i', 'o', 'n', ' ', 'c', 'o', 'n', 'f', 'l', 'i', 'c', 't', 's', ' ', 'w', 'i', 't', 'h', ' ', 't', 'h', 'e', ' ', 's', 't', 'o', 'r', 'e', 'd', ' ', 's', 'o', 'u', 'r', 'c', 'e', ' ', 'r', 'e', 'c', 'o', 'r', 'd']
}

pub fn conflict_message_chars() -> (out: Vec<char>)
    ensures
        out@ == conflict_message(),
{
    vec!['i', 'm', 'p', 'o', 'r', 't', 'e', 'd', ' ', 'r', 'e', 'v', 'i', 's', 'i', 'o', 'n', ' ', 'c', 'o', 'n', 'f', 'l', 'i', 'c', 't', 's', ' ', 'w', 'i', 't', 'h', ' ', 't', 'h', 'e', ' ', 's', 't', 'o', 'r', 'e', 'd', ' ', 's', 'o', 'u', 'r', 'c', 'e', ' ', 'r', 'e', 'c', 'o', 'r', 'd']
}

#[derive(Debug)]
pub struct ImportedHistoryService;

#[derive(Debug, Clone, Copy, PartialEq, Eq, Structural)]
pub struct ImportHistoryOutput {
    pub inserted: usize,
}

#[derive(Debug, Clone, Copy, PartialEq, Eq, Structural)]
pub struct ReadImportedHistory {
    pub site_id: i64,
    pub page_id: i64,
    pub before_revision: Option<i32>,
    pub limit: u64,
    pub user_id: Option<i64>,
}

#[derive(Debug, Clone, Copy, PartialEq, Eq, Structural)]
pub struct ReadImportedRevision {
    pub site_id: i64,
    pub page_id: i64,
    pub source_revision_number: i32,
    pub user_id: Option<i64>,
}

/// What identifies an imported revision, and what it must carry.
#[derive(Debug)]
pub struct RevisionIdentity {
    pub source_revision_id: i64,
    pub source_revision_number: i32,
    pub source_author_id: Option<i64>,
    pub representation: String,
    pub raw_source_html: String,
}

/// An import error.
pub fn invalid(message: &str) -> (out: Error)
    ensures
        error_is(out, ErrorType::DatabaseImport, message@),
{
    Error::new(string_from_chars(&str_chars(message)), ErrorType::DatabaseImport)
}

fn invalid_chars(message: Vec<char>) -> (out: Error)
    ensures
        error_is(out, ErrorType::DatabaseImport, message@),
{
    Error::new(string_from_chars(&message), ErrorType::DatabaseImport)
}

pub open spec fn bad_identity(r: RevisionIdentity) -> bool {
    r.source_revision_id <= 0 || r.source_revision_number < 0
        || (r.source_author_id matches Some(a) && a <= 0)
}

pub open spec fn duplicate_before(revisions: Seq<RevisionIdentity>, i: int) -> bool {
    exists|j: int| 0 <= j < i && (revisions[j].source_revision_id == revisions[i].source_revision_id
        || revisions[j].source_revision_number == revisions[i].source_revision_number)
}

pub open spec fn bad_source(r: RevisionIdentity) -> bool {
    r.representation@ != display_decoded() || r.raw_source_html@.len() == 0
}

/// The first problem of the revisions from `i` on, in request order.
pub open spec fn first_problem(revisions: Seq<RevisionIdentity>, i: int) -> Option<Seq<char>>
    decreases revisions.len() - i,
{
    if i < 0 || i >= revisions.len() {
        None
    } else if bad_identity(revisions[i]) {
        Some(invalid_identity_message())
    } else if duplicate_before(revisions, i) {
        Some(duplicate_identity_message())
    } else if bad_source(revisions[i]) {
        Some(raw_source_required_message())
    } else {
        first_problem(revisions, i + 1)
    }
}

/// Why an import request is refused, if it is.
pub open spec fn import_problem(source_page_id: i64, revisions: Seq<RevisionIdentity>) -> Option<Seq<char>> {
    if source_page_id <= 0 || revisions.len() == 0 {
        Some(identity_required_message())
    } else {
        first_problem(revisions, 0)
    }
}

/// Checks an import request before anything is read or written: a source
/// page, at least one revision, and revisions with positive, distinct
/// identities, the raw source and the one accepted representation.
pub fn validate_input(source_page_id: i64, revisions: &[RevisionIdentity]) -> (out: Result<(), Error>)
    ensures
        out is Ok <==> import_problem(source_page_id, revisions@) is None,
        out matches Err(e) ==> error_is(e, ErrorType::DatabaseImport, import_problem(source_page_id, revisions@).unwrap()),
{
    if source_page_id <= 0 || revisions.len() == 0 {
        return Err(invalid_chars(identity_required_message_chars()));
    }
    let expected = display_decoded_chars();
    let mut i: usize = 0;
    while i < revisions.len()
        invariant
            i <= revisions@.len(),
            expected@ == display_decoded(),
            import_problem(source_page_id, revisions@) == first_problem(revisions@, 0),
            first_problem(revisions@, i as int) == first_problem(revisions@, 0),
        decreases revisions@.len() - i,
    {
        let id = revisions[i].source_revision_id;
        let number = revisions[i].source_revision_number;
        let author_bad = match revisions[i].source_author_id { Some(a) => a <= 0, None => false };
        assert(bad_identity(revisions@[i as int]) == (id <= 0 || number < 0 || author_bad));
        if id <= 0 || number < 0 || author_bad {
            return Err(invalid_chars(invalid_identity_message_chars()));
        }
        let mut j: usize = 0;
        while j < i
            invariant
                j <= i < revisions@.len(),
                import_problem(source_page_id, revisions@) == first_problem(revisions@, i as int),
                !bad_identity(revisions@[i as int]),
                id == revisions@[i as int].source_revision_id,
                number == revisions@[i as int].source_revision_number,
                forall|k: int| 0 <= k < j ==> !(revisions@[k].source_revision_id == revisions@[i as int].source_revision_id
                    || revisions@[k].source_revision_number == revisions@[i as int].source_revision_number),
            decreases i - j,
        {
            if revisions[j].source_revision_id == id || revisions[j].source_revision_number == number {
                assert(duplicate_before(revisions@, i as int));
                return Err(invalid_chars(duplicate_identity_message_chars()));
            }
            j = j + 1;
        }
        assert(!duplicate_before(revisions@, i as int));
        let r = &revisions[i];
        let raw = str_chars(r.raw_source_html.as_str());
        if !chars_eq(&str_chars(r.representation.as_str()), &expected) || raw.len() == 0 {
            return Err(invalid_chars(raw_source_required_message_chars()));
        }
        i = i + 1;
    }
    Ok(())
}

/// Refuses history for a page that is not on the site.
pub open spec fn missing_target_message() -> Seq<char> {
    seq!['h', 'i', 's', 't', 'o', 'r', 'y', ' ', 't', 'a', 'r', 'g', 'e', 't', ' ', 'p', 'a', 'g', 'e', ' ', 'd', 'o', 'e', 's', ' ', 'n', 'o', 't', ' ', 'e', 'x', 'i', 's', 't', ' ', 'o', 'n', ' ', 't', 'h', 'i', 's', ' ', 's', 'i', 't', 'e']
}

pub fn missing_target_message_chars() -> (out: Vec<char>)
    ensures
        out@ == missing_target_message(),
{
    vec!['h', 'i', 's', 't', 'o', 'r', 'y', ' ', 't', 'a', 'r', 'g', 'e', 't', ' ', 'p', 'a', 'g', 'e', ' ', 'd', 'o', 'e', 's', ' ', 'n', 'o', 't', ' ', 'e', 'x', 'i', 's', 't', ' ', 'o', 'n', ' ', 't', 'h', 'i', 's', ' ', 's', 'i', 't', 'e']
}

/// Refuses history when the page changed after the importer looked.
pub open spec fn revision_moved_message() -> Seq<char> {
    seq!['c', 'u', 'r', 'r', 'e', 'n', 't', ' ', 'p', 'a', 'g', 'e', ' ', 'r', 'e', 'v', 'i', 's', 'i', 'o', 'n', ' ', 'c', 'h', 'a', 'n', 'g', 'e', 'd', ' ', 'b', 'e', 'f', 'o', 'r', 'e', ' ', 'h', 'i', 's', 't', 'o', 'r', 'y', ' ', 'i', 'm', 'p', 'o', 'r', 't']
}

pub fn revision_moved_message_chars() -> (out: Vec<char>)
    ensures
        out@ == revision_moved_message(),
{
    vec!['c', 'u', 'r', 'r', 'e', 'n', 't', ' ', 'p', 'a', 'g', 'e', ' ', 'r', 'e', 'v', 'i', 's', 'i', 'o', 'n', ' ', 'c', 'h', 'a', 'n', 'g', 'e', 'd', ' ', 'b', 'e', 'f', 'o', 'r', 'e', ' ', 'h', 'i', 's', 't', 'o', 'r', 'y', ' ', 'i', 'm', 'p', 'o', 'r', 't']
}

/// Refuses history to a user who may not view the page.
pub open spec fn history_hidden_message() -> Seq<char> {
    seq!['p', 'a', 'g', 'e', ' ', 'h', 'i', 's', 't', 'o', 'r', 'y', ' ', 'i', 's', ' ', 'n', 'o', 't', ' ', 'v', 'i', 's', 'i', 'b', 'l', 'e', ' ', 't', 'o', ' ', 't', 'h', 'i', 's', ' ', 'u', 's', 'e', 'r']
}

pub fn history_hidden_message_chars() -> (out: Vec<char>)
    ensures
        out@ == history_hidden_message(),
{
    vec!['p', 'a', 'g', 'e', ' ', 'h', 'i', 's', 't', 'o', 'r', 'y', ' ', 'i', 's', ' ', 'n', 'o', 't', ' ', 'v', 'i', 's', 'i', 'b', 'l', 'e', ' ', 't', 'o', ' ', 't', 'h', 'i', 's', ' ', 'u', 's', 'e', 'r']
}

/// History is imported under the page as the importer saw it: the page must
/// exist on the site, undeleted, with the current revision the importer
/// expected. `current_revision_id` is that page's current revision, `None`
/// when there is no such page.
pub fn check_target_page(current_revision_id: Option<i64>, expected_revision_id: i64) -> (out: Result<(), Error>)
    ensures
        out is Ok <==> current_revision_id == Some(expected_revision_id),
        current_revision_id is None ==> (out matches Err(e) && error_is(e, ErrorType::DatabaseImport, missing_target_message())),
        current_revision_id matches Some(r) && r != expected_revision_id ==> (out matches Err(e) && error_is(e, ErrorType::DatabaseImport, revision_moved_message())),
{
    match current_revision_id {
        None => Err(invalid_chars(missing_target_message_chars())),
        Some(r) => {
            if r != expected_revision_id {
                Err(invalid_chars(revision_moved_message_chars()))
            } else {
                Ok(())
            }
        },
    }
}

/// The refusal of imported history to a user who may not view the page.
pub fn history_hidden() -> (out: Error)
    ensures
        error_is(out, ErrorType::Permission, history_hidden_message()),
{
    Error::new(string_from_chars(&history_hidden_message_chars()), ErrorType::Permission)
}

/// A page of history lists 1 to 100 revisions.
pub fn check_history_limit(limit: u64) -> (out: Result<(), Error>)
    ensures
        out is Ok <==> 1 <= limit <= 100,
        out matches Err(e) ==> error_is(e, ErrorType::DatabaseImport, limit_message()),
{
    if limit == 0 || limit > 100 {
        return Err(invalid_chars(limit_message_chars()));
    }
    Ok(())
}

/// History already stored for a page must come from the same source page.
pub fn check_source_identity(stored_source_page_ids: &[i64], source_page_id: i64) -> (out: Result<(), Error>)
    ensures
        out is Ok <==> forall|i: int| 0 <= i < stored_source_page_ids@.len() ==> stored_source_page_ids@[i] == source_page_id,
        out matches Err(e) ==> error_is(e, ErrorType::DatabaseImport, identity_changed_message()),
{
    let mut i: usize = 0;
    while i < stored_source_page_ids.len()
        invariant
            i <= stored_source_page_ids@.len(),
            forall|k: int| 0 <= k < i ==> stored_source_page_ids@[k] == source_page_id,
        decreases stored_source_page_ids@.len() - i,
    {
        if stored_source_page_ids[i] != source_page_id {
            return Err(invalid_chars(identity_changed_message_chars()));
        }
        i = i + 1;
    }
    Ok(())
}

/// The first stored revision, from `i` on, with this source revision ID.
pub open spec fn find_by_id(stored: Seq<(i64, i32)>, id: i64, i: int) -> Option<int>
    decreases stored.len() - i,
{
    if i < 0 || i >= stored.len() { None } else if stored[i].0 == id { Some(i) } else { find_by_id(stored, id, i + 1) }
}

/// The first stored revision, from `i` on, with this source revision number.
pub open spec fn find_by_number(stored: Seq<(i64, i32)>, number: i32, i: int) -> Option<int>
    decreases stored.len() - i,
{
    if i < 0 || i >= stored.len() { None } else if stored[i].1 == number { Some(i) } else { find_by_number(stored, number, i + 1) }
}

/// The stored revision an imported one is matched with: the one with its
/// source revision ID, or else the one with its number.
pub fn matching_stored(stored: &[(i64, i32)], source_revision_id: i64, source_revision_number: i32) -> (out: Option<usize>)
    ensures
        match out {
            Some(k) => if find_by_id(stored@, source_revision_id, 0) is Some {
                find_by_id(stored@, source_revision_id, 0) == Some(k as int)
            } else {
                find_by_number(stored@, source_revision_number, 0) == Some(k as int)
            },
            None => find_by_id(stored@, source_revision_id, 0) is None && find_by_number(stored@, source_revision_number, 0) is None,
        },
{
    let mut i: usize = 0;
    while i < stored.len()
        invariant
            i <= stored@.len(),
            find_by_id(stored@, source_revision_id, i as int) == find_by_id(stored@, source_revision_id, 0),
        decreases stored@.len() - i,
    {
        if stored[i].0 == source_revision_id {
            return Some(i);
        }
        i = i + 1;
    }
    let mut j: usize = 0;
    while j < stored.len()
        invariant
            j <= stored@.len(),
            find_by_id(stored@, source_revision_id, 0) is None,
            find_by_number(stored@, source_revision_number, j as int) == find_by_number(stored@, source_revision_number, 0),
        decreases stored@.len() - j,
    {
        if stored[j].1 == source_revision_number {
            return Some(j);
        }
        j = j + 1;
    }
    None
}

/// The refusal of an imported revision that differs from the one stored.
pub fn conflicting_revision() -> (out: Error)
    ensures
        error_is(out, ErrorType::DatabaseImport, conflict_message()),
{
    invalid_chars(conflict_message_chars())
}

// ---------------------------------------------------------------- stored rows

/// An imported revision as it is stored for a page: its source identity,
/// the source's metadata, the stored text's hash, the raw source and how it
/// was acquired. Times are nanoseconds since the Unix epoch.
#[derive(Debug)]
pub struct ImportedRow {
    pub source_page_id: i64,
    pub source_revision_id: i64,
    pub source_revision_number: i32,
    pub source_author_id: Option<i64>,
    pub source_created_at: i128,
    pub source_comments: String,
    pub source_flags: Vec<String>,
    pub source_title: Option<String>,
    pub source_slug: Option<String>,
    pub source_tags: Option<Vec<String>>,
    pub wikitext_hash: Vec<u8>,
    pub raw_source_html: String,
    pub acquired_at: i128,
    pub representation: String,
}

pub open spec fn opt_view(s: Option<String>) -> Option<Seq<char>> {
    match s { Some(t) => Some(t@), None => None }
}

pub open spec fn opt_strings_view(s: Option<Vec<String>>) -> Option<Seq<Seq<char>>> {
    match s { Some(t) => Some(strings_view(t@)), None => None }
}

/// Whether two rows hold the same record, field for field.
pub open spec fn same_row(a: ImportedRow, b: ImportedRow) -> bool {
    &&& a.source_page_id == b.source_page_id
    &&& a.source_revision_id == b.source_revision_id
    &&& a.source_revision_number == b.source_revision_number
    &&& a.source_author_id == b.source_author_id
    &&& a.source_created_at == b.source_created_at
    &&& a.source_comments@ == b.source_comments@
    &&& strings_view(a.source_flags@) == strings_view(b.source_flags@)
    &&& opt_view(a.source_title) == opt_view(b.source_title)
    &&& opt_view(a.source_slug) == opt_view(b.source_slug)
    &&& opt_strings_view(a.source_tags) == opt_strings_view(b.source_tags)
    &&& a.wikitext_hash@ == b.wikitext_hash@
    &&& a.raw_source_html@ == b.raw_source_html@
    &&& a.acquired_at == b.acquired_at
    &&& a.representation@ == b.representation@
}

fn string_eq(a: &String, b: &String) -> (out: bool)
    ensures
        out == (a@ == b@),
{
    chars_eq(&str_chars(a.as_str()), &str_chars(b.as_str()))
}

fn option_eq(a: &Option<String>, b: &Option<String>) -> (out: bool)
    ensures
        out == (opt_view(*a) == opt_view(*b)),
{
    match (a, b) {
        (Some(x), Some(y)) => string_eq(x, y),
        (None, None) => true,
        _ => false,
    }
}

fn strings_eq(a: &Vec<String>, b: &Vec<String>) -> (out: bool)
    ensures
        out == (strings_view(a@) == strings_view(b@)),
{
    if a.len() != b.len() {
        assert(strings_view(a@).len() != strings_view(b@).len());
        return false;
    }
    let mut i: usize = 0;
    while i < a.len()
        invariant
            i <= a@.len(),
            a@.len() == b@.len(),
            forall|k: int| 0 <= k < i ==> a@[k]@ == b@[k]@,
        decreases a@.len() - i,
    {
        if !string_eq(&a[i], &b[i]) {
            assert(strings_view(a@)[i as int] != strings_view(b@)[i as int]);
            return false;
        }
        i = i + 1;
    }
    assert(strings_view(a@) =~= strings_view(b@));
    true
}

fn options_eq(a: &Option<Vec<String>>, b: &Option<Vec<String>>) -> (out: bool)
    ensures
        out == (opt_strings_view(*a) == opt_strings_view(*b)),
{
    match (a, b) {
        (Some(x), Some(y)) => strings_eq(x, y),
        (None, None) => true,
        _ => false,
    }
}

fn bytes_eq(a: &Vec<u8>, b: &Vec<u8>) -> (out: bool)
    ensures
        out == (a@ == b@),
{
    if a.len() != b.len() {
        return false;
    }
    let mut i: usize = 0;
    while i < a.len()
        invariant
            i <= a@.len(),
            a@.len() == b@.len(),
            forall|k: int| 0 <= k < i ==> a@[k] == b@[k],
        decreases a@.len() - i,
    {
        if a[i] != b[i] {
            return false;
        }
        i = i + 1;
    }
    assert(a@ =~= b@);
    true
}

/// Whether an incoming revision is the record stored: every field agrees.
pub fn same_record(a: &ImportedRow, b: &ImportedRow) -> (out: bool)
    ensures
        out == same_row(*a, *b),
{
    a.source_page_id == b.source_page_id
        && a.source_revision_id == b.source_revision_id
        && a.source_revision_number == b.source_revision_number
        && a.source_author_id == b.source_author_id
        && a.source_created_at == b.source_created_at
        && string_eq(&a.source_comments, &b.source_comments)
        && strings_eq(&a.source_flags, &b.source_flags)
        && option_eq(&a.source_title, &b.source_title)
        && option_eq(&a.source_slug, &b.source_slug)
        && options_eq(&a.source_tags, &b.source_tags)
        && bytes_eq(&a.wikitext_hash, &b.wikitext_hash)
        && string_eq(&a.raw_source_html, &b.raw_source_html)
        && a.acquired_at == b.acquired_at
        && string_eq(&a.representation, &b.representation)
}

/// A row's source identity.
pub open spec fn row_key(r: ImportedRow) -> (i64, i32) {
    (r.source_revision_id, r.source_revision_number)
}

pub open spec fn keys(rows: Seq<ImportedRow>) -> Seq<(i64, i32)> {
    rows.map_values(|r: ImportedRow| row_key(r))
}

/// The stored row an incoming one is matched with: the first with its
/// source revision ID, or else the first with its number.
pub open spec fn match_of(stored: Seq<ImportedRow>, r: ImportedRow) -> Option<int> {
    match find_by_id(keys(stored), r.source_revision_id, 0) {
        Some(k) => Some(k),
        None => find_by_number(keys(stored), r.source_revision_number, 0),
    }
}

/// An incoming revision conflicts when the row it is matched with differs.
pub open spec fn conflicts(stored: Seq<ImportedRow>, r: ImportedRow) -> bool {
    match match_of(stored, r) {
        Some(k) => !same_row(stored[k], r),
        None => false,
    }
}

/// What `find_by_id` finds from `i`: the first position from there with the
/// ID, or none when no position there has it.
pub proof fn lemma_find_by_id(s: Seq<(i64, i32)>, id: i64, i: int)
    requires
        0 <= i,
    ensures
        match find_by_id(s, id, i) {
            Some(p) => i <= p < s.len() && s[p].0 == id && forall|q: int| i <= q < p ==> s[q].0 != id,
            None => forall|q: int| i <= q < s.len() ==> s[q].0 != id,
        },
    decreases s.len() - i,
{
    if i < s.len() && s[i].0 != id {
        lemma_find_by_id(s, id, i + 1);
    }
}

/// What `find_by_number` finds from `i`, as `lemma_find_by_id` says.
pub proof fn lemma_find_by_number(s: Seq<(i64, i32)>, number: i32, i: int)
    requires
        0 <= i,
    ensures
        match find_by_number(s, number, i) {
            Some(p) => i <= p < s.len() && s[p].1 == number && forall|q: int| i <= q < p ==> s[q].1 != number,
            None => forall|q: int| i <= q < s.len() ==> s[q].1 != number,
        },
    decreases s.len() - i,
{
    if i < s.len() && s[i].1 != number {
        lemma_find_by_number(s, number, i + 1);
    }
}

/// What an import writes, given the page's stored rows and the incoming
/// revisions as rows: refused when any incoming revision conflicts with the
/// row it is matched with; else one flag per revision, set for those that
/// match no stored row and are inserted. A revision already stored as it is
/// is passed over.
pub fn import_plan(stored: &Vec<ImportedRow>, incoming: &Vec<ImportedRow>) -> (out: Result<Vec<bool>, Error>)
    ensures
        out is Err <==> exists|i: int| 0 <= i < incoming@.len() && conflicts(stored@, #[trigger] incoming@[i]),
        out matches Err(e) ==> error_is(e, ErrorType::DatabaseImport, conflict_message()),
        out matches Ok(flags) ==> flags@.len() == incoming@.len()
            && forall|i: int| 0 <= i < incoming@.len() ==> flags@[i] == (match_of(stored@, #[trigger] incoming@[i]) is None),
{
    let mut key_list: Vec<(i64, i32)> = Vec::new();
    let mut k: usize = 0;
    while k < stored.len()
        invariant
            k <= stored@.len(),
            key_list@ == keys(stored@.take(k as int)),
        decreases stored@.len() - k,
    {
        key_list.push((stored[k].source_revision_id, stored[k].source_revision_number));
        assert(keys(stored@.take(k + 1)) =~= keys(stored@.take(k as int)).push(row_key(stored@[k as int])));
        k = k + 1;
    }
    assert(stored@.take(stored@.len() as int) =~= stored@);
    let mut flags: Vec<bool> = Vec::new();
    let mut i: usize = 0;
    while i < incoming.len()
        invariant
            i <= incoming@.len(),
            key_list@ == keys(stored@),
            flags@.len() == i,
            forall|j: int| 0 <= j < i ==> !conflicts(stored@, #[trigger] incoming@[j]),
            forall|j: int| 0 <= j < i ==> flags@[j] == (match_of(stored@, #[trigger] incoming@[j]) is None),
        decreases incoming@.len() - i,
    {
        let r = &incoming[i];
        match matching_stored(&key_list, r.source_revision_id, r.source_revision_number) {
            Some(m) => {
                proof {
                    lemma_find_by_id(keys(stored@), r.source_revision_id, 0);
                    lemma_find_by_number(keys(stored@), r.source_revision_number, 0);
                }
                assert(match_of(stored@, incoming@[i as int]) == Some(m as int));
                if !same_record(&stored[m], r) {
                    assert(conflicts(stored@, incoming@[i as int]));
                    return Err(conflicting_revision());
                }
                flags.push(false);
            },
            None => {
                flags.push(true);
            },
        }
        i = i + 1;
    }
    Ok(flags)
}

/// The rows an import of `incoming[..n]` inserts, in request order: those
/// that match no stored row.
pub open spec fn inserted_rows(stored: Seq<ImportedRow>, incoming: Seq<ImportedRow>, n: int) -> Seq<ImportedRow>
    decreases n,
{
    if n <= 0 {
        seq![]
    } else {
        let before = inserted_rows(stored, incoming, n - 1);
        if match_of(stored, incoming[n - 1]) is None { before.push(incoming[n - 1]) } else { before }
    }
}

/// No two incoming revisions share a source revision ID, as
/// `validate_input` requires.
pub open spec fn distinct_ids(incoming: Seq<ImportedRow>) -> bool {
    forall|i: int, j: int| 0 <= i < incoming.len() && 0 <= j < incoming.len() && i != j
        ==> incoming[i].source_revision_id != incoming[j].source_revision_id
}

/// Whether `row` is one of `incoming[..n]` that matches no stored row.
pub open spec fn unmatched_among(stored: Seq<ImportedRow>, incoming: Seq<ImportedRow>, n: int, row: ImportedRow) -> bool {
    exists|j: int| 0 <= j < n && row == #[trigger] incoming[j] && match_of(stored, incoming[j]) is None
}

proof fn lemma_inserted_rows(stored: Seq<ImportedRow>, incoming: Seq<ImportedRow>, n: int)
    requires
        0 <= n <= incoming.len(),
    ensures
        forall|p: int| 0 <= p < inserted_rows(stored, incoming, n).len()
            ==> unmatched_among(stored, incoming, n, #[trigger] inserted_rows(stored, incoming, n)[p]),
        forall|j: int| 0 <= j < n && match_of(stored, #[trigger] incoming[j]) is None ==> exists|p: int|
            0 <= p < inserted_rows(stored, incoming, n).len() && inserted_rows(stored, incoming, n)[p] == incoming[j],
    decreases n,
{
    if n > 0 {
        lemma_inserted_rows(stored, incoming, n - 1);
        let before = inserted_rows(stored, incoming, n - 1);
        let now = inserted_rows(stored, incoming, n);
        assert forall|p: int| 0 <= p < now.len() implies unmatched_among(stored, incoming, n, #[trigger] now[p]) by {
            if p < before.len() {
                assert(now[p] == before[p]);
                assert(unmatched_among(stored, incoming, n - 1, before[p]));
                let j = choose|j: int| 0 <= j < n - 1 && before[p] == #[trigger] incoming[j] && match_of(stored, incoming[j]) is None;
                assert(now[p] == incoming[j]);
            } else {
                assert(now[p] == incoming[n - 1]);
            }
        }
        assert forall|j: int| 0 <= j < n && match_of(stored, #[trigger] incoming[j]) is None implies exists|p: int|
            0 <= p < now.len() && now[p] == incoming[j] by {
            if j < n - 1 {
                let p = choose|p: int| 0 <= p < before.len() && before[p] == incoming[j];
                assert(now[p] == before[p]);
            } else {
                assert(now[before.len() as int] == incoming[j]);
            }
        }
    }
}

/// Importing the same revisions again inserts nothing and is not refused:
/// once an import went through, every revision it carried matches a stored
/// row that holds exactly that revision. Revisions already stored keep
/// their rows, and each inserted revision is found by its source ID.
pub proof fn lemma_import_idempotent(stored: Seq<ImportedRow>, incoming: Seq<ImportedRow>)
    requires
        distinct_ids(incoming),
        forall|i: int| 0 <= i < incoming.len() ==> !conflicts(stored, #[trigger] incoming[i]),
    ensures
        forall|i: int| 0 <= i < incoming.len() ==> match_of(stored + inserted_rows(stored, incoming, incoming.len() as int), #[trigger] incoming[i]) is Some
            && !conflicts(stored + inserted_rows(stored, incoming, incoming.len() as int), incoming[i]),
{
    let ins = inserted_rows(stored, incoming, incoming.len() as int);
    let after = stored + ins;
    let ks = keys(stored);
    let ka = keys(after);
    lemma_inserted_rows(stored, incoming, incoming.len() as int);
    assert(ka =~= ks + keys(ins));
    assert forall|i: int| 0 <= i < incoming.len() implies match_of(after, #[trigger] incoming[i]) is Some && !conflicts(after, incoming[i]) by {
        let r = incoming[i];
        let id = r.source_revision_id;
        let number = r.source_revision_number;
        lemma_find_by_id(ks, id, 0);
        lemma_find_by_id(ka, id, 0);
        lemma_find_by_number(ks, number, 0);
        lemma_find_by_number(ka, number, 0);
        match find_by_id(ks, id, 0) {
            Some(p) => {
                assert(ka[p] == ks[p]);
                match find_by_id(ka, id, 0) {
                    Some(q) => {
                        if q < p { assert(ka[q] == ks[q]); }
                        assert(q == p);
                    },
                    None => {},
                }
                assert(after[p] == stored[p]);
            },
            None => {
                match find_by_number(ks, number, 0) {
                    Some(p) => {
                        // Matched by number: no inserted row carries this ID.
                        assert forall|q: int| 0 <= q < ka.len() implies ka[q].0 != id by {
                            if q < ks.len() {
                                assert(ka[q] == ks[q]);
                            } else {
                                let pi = q - ks.len();
                                assert(ka[q] == row_key(ins[pi]));
                                assert(unmatched_among(stored, incoming, incoming.len() as int, ins[pi]));
                                let j = choose|j: int| 0 <= j < incoming.len()
                                    && ins[pi] == #[trigger] incoming[j] && match_of(stored, incoming[j]) is None;
                                if j != i {
                                    assert(incoming[j].source_revision_id != incoming[i].source_revision_id);
                                }
                            }
                        }
                        assert(find_by_id(ka, id, 0) is None);
                        assert(ka[p] == ks[p]);
                        match find_by_number(ka, number, 0) {
                            Some(q) => {
                                if q < p { assert(ka[q] == ks[q]); }
                                assert(q == p);
                            },
                            None => {},
                        }
                        assert(after[p] == stored[p]);
                    },
                    None => {
                        // Unmatched: inserted, and the only row with its ID.
                        assert(match_of(stored, incoming[i]) is None);
                        let p0 = choose|p: int| 0 <= p < ins.len() && ins[p] == incoming[i];
                        assert(ka[ks.len() + p0] == row_key(ins[p0]));
                        assert(ka[ks.len() + p0].0 == id);
                        let q = find_by_id(ka, id, 0).unwrap();
                        if q < ks.len() {
                            assert(ka[q] == ks[q]);
                        }
                        let pi = q - ks.len();
                        assert(ka[q] == row_key(ins[pi]));
                        assert(unmatched_among(stored, incoming, incoming.len() as int, ins[pi]));
                        let j = choose|j: int| 0 <= j < incoming.len()
                            && ins[pi] == #[trigger] incoming[j] && match_of(stored, incoming[j]) is None;
                        if j != i {
                            assert(incoming[j].source_revision_id != incoming[i].source_revision_id);
                        }
                        assert(after[q] == ins[pi]);
                        assert(after[q] == incoming[i]);
                    },
                }
            },
        }
    }
}

/// How many flags are set.
pub open spec fn set_count(flags: Seq<bool>) -> nat
    decreases flags.len(),
{
    if flags.len() == 0 { 0 } else { set_count(flags.drop_last()) + if flags.last() { 1nat } else { 0nat } }
}

/// What an import reports: the number of revisions it inserted.
pub fn import_output(flags: &Vec<bool>) -> (out: ImportHistoryOutput)
    ensures
        out.inserted == set_count(flags@),
{
    let mut n: usize = 0;
    let mut i: usize = 0;
    while i < flags.len()
        invariant
            i <= flags@.len(),
            n == set_count(flags@.take(i as int)),
            n <= i,
        decreases flags@.len() - i,
    {
        assert(flags@.take(i + 1).drop_last() =~= flags@.take(i as int));
        if flags[i] {
            n = n + 1;
        }
        i = i + 1;
    }
    assert(flags@.take(flags@.len() as int) =~= flags@);
    ImportHistoryOutput { inserted: n }
}

} // verus!
