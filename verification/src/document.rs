//! What becomes of one document: it is left as it is, or it is written anew
//! with frontmatter before it.

use crate::date::has_day;
use crate::date::utc_day;
use crate::date::view_of;
use crate::date::CalendarDate;
use crate::date::Date;
use crate::frontmatter::add_frontmatter;
use crate::frontmatter::dated_frontmatter;
use crate::frontmatter::delete_frontmatter;
use crate::frontmatter::delimited;
use crate::frontmatter::derived;
use crate::frontmatter::has_frontmatter;
use crate::frontmatter::title_of;
use crate::frontmatter::with_frontmatter;
use crate::frontmatter::without_frontmatter;
use crate::frontmatter::FrontmatterError;
use vstd::prelude::*;

verus! {

/// `text` without the frontmatter that it may have.
pub open spec fn bare(text: Seq<char>) -> Seq<char> {
    if delimited(text) {
        without_frontmatter(text)
    } else {
        text
    }
}

/// The text that takes the place of `text`, created on the day `created` and
/// last modified on the day `modified`; `None` where `text` stays as it is.
///
/// A text that has frontmatter stays as it is unless `allow_deletion`, and
/// then loses it first. The text is then given the frontmatter of its own
/// metadata, and fails to be given it where it has no metadata: where a day
/// is missing, or where both are there and it has no title.
pub open spec fn transformed(
    text: Seq<char>,
    created: Option<CalendarDate>,
    modified: Option<CalendarDate>,
    allow_deletion: bool,
    with_modified: bool,
) -> Result<Option<Seq<char>>, FrontmatterError> {
    if delimited(text) && !allow_deletion {
        Ok(None)
    } else {
        match derived(bare(text), created, modified) {
            Ok(record) => Ok(Some(with_frontmatter(bare(text), record, with_modified))),
            Err(e) => Err(e),
        }
    }
}

/// The model of what transforming a document gave: the new text if there is
/// one, or the error as it is.
pub open spec fn text_of(outcome: Result<Option<String>, FrontmatterError>) -> Result<
    Option<Seq<char>>,
    FrontmatterError,
> {
    match outcome {
        Ok(Some(text)) => Ok(Some(text@)),
        Ok(None) => Ok(None),
        Err(e) => Err(e),
    }
}

/// The text to write in place of the document `content`, created on the day
/// `created` and last modified on the day `modified`; `None` where the
/// document stays as it is.
pub fn transform_dated(
    content: &str,
    created: Option<Date>,
    modified: Option<Date>,
    allow_deletion: bool,
    with_modified: bool,
) -> (outcome: Result<Option<String>, FrontmatterError>)
    ensures
        text_of(outcome) == transformed(
            content@,
            view_of(created),
            view_of(modified),
            allow_deletion,
            with_modified,
        ),
{
    if has_frontmatter(content) {
        if !allow_deletion {
            return Ok(None);
        }
        let body = delete_frontmatter(content);
        match dated_frontmatter(body.as_str(), created, modified) {
            Ok(frontmatter) => Ok(Some(add_frontmatter(body.as_str(), frontmatter, with_modified))),
            Err(e) => Err(e),
        }
    } else {
        match dated_frontmatter(content, created, modified) {
            Ok(frontmatter) => Ok(Some(add_frontmatter(content, frontmatter, with_modified))),
            Err(e) => Err(e),
        }
    }
}

/// The text to write in place of the document `content`, whose file was
/// created `created` seconds and last modified `modified` seconds after the
/// start of 1970 in UTC; `None` where the document stays as it is.
pub fn transform(
    content: &str,
    created: Option<i64>,
    modified: Option<i64>,
    allow_deletion: bool,
    with_modified: bool,
) -> (outcome: Result<Option<String>, FrontmatterError>)
    ensures
        text_of(outcome) == transformed(
            content@,
            utc_day(created),
            utc_day(modified),
            allow_deletion,
            with_modified,
        ),
        outcome is Ok <==> (delimited(content@) && !allow_deletion) || (has_day(created)
            && has_day(modified) && title_of(bare(content@)) is Some),
{
    let created = match created {
        Some(secs) => Date::from_timestamp(secs),
        None => None,
    };
    let modified = match modified {
        Some(secs) => Date::from_timestamp(secs),
        None => None,
    };
    transform_dated(content, created, modified, allow_deletion, with_modified)
}

} // verus!
