//! The frontmatter block of a document: whether a text has one, the text
//! without it, the metadata that a text and its file's times give, and the
//! text with the block for that metadata before it.
//!
//! The block is made of lines: three hyphens, the title, the day of
//! creation, the day of the last modification where it is asked for, and
//! three hyphens again. A first-level heading is a line that begins with a
//! hash sign and a space; the first one of a text gives the title.

use crate::date::has_day;
use crate::date::utc_day;
use crate::date::view_of;
use crate::date::CalendarDate;
use crate::date::Date;
use crate::text::chars_of;
use crate::text::join_lines;
use crate::text::lemma_lines_single_line;
use crate::text::line;
use crate::text::line_views;
use crate::text::lines;
use crate::text::lines_of;
use crate::text::push_chars;
use crate::text::single_line;
use vstd::prelude::*;
use vstd::std_specs::iter::IteratorSpec;
use vstd::string::StringExecFns;

verus! {

/// Whether `text` begins with the three hyphens that open a frontmatter
/// block.
pub open spec fn delimited(text: Seq<char>) -> bool {
    text.len() >= 3 && text[0] == '-' && text[1] == '-' && text[2] == '-'
}

/// Whether `line` begins with the marker of a first-level heading, a hash
/// sign and a space.
pub open spec fn is_heading(line: Seq<char>) -> bool {
    line.len() >= 2 && line[0] == '#' && line[1] == ' '
}

/// The position of the first heading among `ls`: their number where none of
/// them is a heading.
pub open spec fn heading_index(ls: Seq<Seq<char>>) -> int
    decreases ls.len(),
{
    if ls.len() == 0 || is_heading(ls[0]) {
        0
    } else {
        1 + heading_index(ls.drop_first())
    }
}

/// Whether `text` has a line that is a heading.
pub open spec fn has_heading(text: Seq<char>) -> bool {
    heading_index(lines(text)) < lines(text).len()
}

/// The lines of `text` from its first heading on.
pub open spec fn from_heading(text: Seq<char>) -> Seq<Seq<char>> {
    lines(text).skip(heading_index(lines(text)))
}

/// The text that is left of `text` when the lines before its first heading
/// are taken away: nothing where it has no heading.
pub open spec fn without_frontmatter(text: Seq<char>) -> Seq<char> {
    join_lines(from_heading(text))
}

/// Whether `title` can be the title of a document: it is not empty and holds
/// no line feed.
pub open spec fn valid_title(title: Seq<char>) -> bool {
    title.len() > 0 && single_line(title)
}

/// The title of `text`: its first heading without the two characters of the
/// marker, if `text` has a heading and the heading holds more than the
/// marker.
pub open spec fn title_of(text: Seq<char>) -> Option<Seq<char>> {
    let ls = lines(text);
    let k = heading_index(ls);
    if 0 <= k < ls.len() && ls[k].len() > 2 {
        Some(ls[k].skip(2))
    } else {
        None
    }
}

/// Why a document has no frontmatter to be given.
#[derive(Clone, Copy, Debug, PartialEq, Eq)]
pub enum FrontmatterError {
    /// The text has no first-level heading with a title in it.
    MissingTitle,
    /// The time of creation or of modification is not known, or falls on no
    /// day that a date can hold.
    UnsupportedTimestamp,
}

/// The metadata of a document: the mathematical model of a [`Frontmatter`].
pub struct Record {
    pub title: Seq<char>,
    pub created: CalendarDate,
    pub modified: CalendarDate,
}

impl Record {
    /// Whether the title is one and both dates are days of the calendar.
    pub open spec fn wf(self) -> bool {
        valid_title(self.title) && self.created.valid() && self.modified.valid()
    }

    /// The line that gives the title.
    pub open spec fn title_line(self) -> Seq<char> {
        line("title: "@ + self.title)
    }

    /// The line that gives the day of creation.
    pub open spec fn publish_line(self) -> Seq<char> {
        line("publishDate: "@ + self.created.iso_text())
    }

    /// The line that gives the day of modification.
    pub open spec fn update_line(self) -> Seq<char> {
        line("updatedDate: "@ + self.modified.iso_text())
    }

    /// The frontmatter block without the day of modification.
    pub open spec fn without_modified(self) -> Seq<char> {
        line("---"@) + self.title_line() + self.publish_line() + line("---"@)
    }

    /// The frontmatter block with the day of modification.
    pub open spec fn with_modified(self) -> Seq<char> {
        line("---"@) + self.title_line() + self.publish_line() + self.update_line() + line(
            "---"@,
        )
    }

    /// The frontmatter block, with the day of modification or without it.
    pub open spec fn block(self, with_modified: bool) -> Seq<char> {
        if with_modified {
            self.with_modified()
        } else {
            self.without_modified()
        }
    }
}

/// `text` with the frontmatter block of `record` and an empty line before it.
pub open spec fn with_frontmatter(text: Seq<char>, record: Record, with_modified: bool) -> Seq<
    char,
> {
    record.block(with_modified) + line(Seq::empty()) + text
}

/// The metadata that `text` and the days of its creation and modification
/// give: none where a day is missing, and none where both days are there and
/// the text has no title.
pub open spec fn derived(
    text: Seq<char>,
    created: Option<CalendarDate>,
    modified: Option<CalendarDate>,
) -> Result<Record, FrontmatterError> {
    match (created, modified, title_of(text)) {
        (Some(c), Some(m), Some(title)) => Ok(Record { title, created: c, modified: m }),
        (Some(_), Some(_), None) => Err(FrontmatterError::MissingTitle),
        (_, _, _) => Err(FrontmatterError::UnsupportedTimestamp),
    }
}

/// The model of what deriving metadata gave: the record of the metadata, or
/// the error as it is.
pub open spec fn record_of(found: Result<Frontmatter, FrontmatterError>) -> Result<
    Record,
    FrontmatterError,
> {
    match found {
        Ok(f) => Ok(f@),
        Err(e) => Err(e),
    }
}

/// `heading_index(ls)` is the one position before which `ls` has no heading
/// and at which it has one or ends.
pub proof fn lemma_heading_index(ls: Seq<Seq<char>>, k: int)
    requires
        0 <= k <= ls.len(),
        forall|i: int| 0 <= i < k ==> !is_heading(#[trigger] ls[i]),
        k < ls.len() ==> is_heading(ls[k]),
    ensures
        heading_index(ls) == k,
    decreases k,
{
    if k > 0 {
        let t = ls.drop_first();
        assert forall|i: int| 0 <= i < k - 1 implies !is_heading(#[trigger] t[i]) by {
            assert(t[i] == ls[i + 1]);
        }
        lemma_heading_index(t, k - 1);
    }
}

/// The first heading of some lines is at one of their positions or at their
/// end; no line before it is a heading, and the line at it is one.
pub proof fn lemma_heading_first(ls: Seq<Seq<char>>)
    ensures
        0 <= heading_index(ls) <= ls.len(),
        forall|i: int| 0 <= i < heading_index(ls) ==> !is_heading(#[trigger] ls[i]),
        heading_index(ls) < ls.len() ==> is_heading(ls[heading_index(ls)]),
    decreases ls.len(),
{
    if ls.len() > 0 && !is_heading(ls[0]) {
        let rest = ls.drop_first();
        lemma_heading_first(rest);
        assert forall|i: int| 0 <= i < heading_index(ls) implies !is_heading(#[trigger] ls[i]) by {
            if i > 0 {
                assert(ls[i] == rest[i - 1]);
            }
        }
    }
}

/// The title of a text is one that a document can have.
pub proof fn lemma_title_valid(text: Seq<char>)
    ensures
        title_of(text) matches Some(title) ==> valid_title(title),
{
    let ls = lines(text);
    let k = heading_index(ls);
    if 0 <= k < ls.len() && ls[k].len() > 2 {
        lemma_lines_single_line(text);
        assert forall|i: int| 0 <= i < ls[k].skip(2).len() implies ls[k].skip(2)[i] != '\n' by {
            assert(ls[k].skip(2)[i] == ls[k][i + 2]);
        }
    }
}

/// Whether `content` begins with the three hyphens that open a frontmatter
/// block.
pub fn has_frontmatter(content: &str) -> (found: bool)
    ensures
        found == delimited(content@),
{
    let mut rest = content.chars();
    let mut hyphens: usize = 0;
    while hyphens < 3
        invariant
            hyphens <= 3,
            hyphens + rest.remaining().len() == content@.len(),
            forall|i: int| 0 <= i < hyphens ==> content@[i] == '-',
            forall|i: int|
                0 <= i < rest.remaining().len() ==> rest.remaining()[i] == content@[hyphens + i],
        decreases 3 - hyphens,
    {
        match rest.next() {
            Some(c) => {
                if c != '-' {
                    return false;
                }
            },
            None => {
                return false;
            },
        }
        hyphens += 1;
    }
    true
}

/// Whether `line` begins with the marker of a first-level heading.
fn starts_heading(line: &Vec<char>) -> (found: bool)
    ensures
        found == is_heading(line@),
{
    line.len() >= 2 && line[0] == '#' && line[1] == ' '
}

/// The position of the first heading among `ls`.
fn heading_position(ls: &Vec<Vec<char>>) -> (index: usize)
    ensures
        index == heading_index(line_views(ls@)),
        index <= ls.len(),
        forall|i: int| 0 <= i < index ==> !is_heading(#[trigger] line_views(ls@)[i]),
        index < ls.len() ==> is_heading(line_views(ls@)[index as int]),
{
    let mut index: usize = 0;
    while index < ls.len() && !starts_heading(&ls[index])
        invariant
            index <= ls.len(),
            forall|i: int| 0 <= i < index ==> !is_heading(#[trigger] line_views(ls@)[i]),
        decreases ls.len() - index,
    {
        index += 1;
    }
    proof {
        lemma_heading_index(line_views(ls@), index as int);
    }
    index
}

/// The number of lines of `content` before its first heading: the number of
/// all its lines where it has no heading.
pub fn find_line_of_header(content: &str) -> (index: usize)
    ensures
        index == heading_index(lines(content@)),
        index <= lines(content@).len(),
        forall|i: int| 0 <= i < index ==> !is_heading(#[trigger] lines(content@)[i]),
        index < lines(content@).len() ==> is_heading(lines(content@)[index as int]),
{
    let ls = lines_of(content);
    heading_position(&ls)
}

/// `content` from its first heading on, line by line with one line feed
/// between each two lines: the empty text where it has no heading.
pub fn delete_frontmatter(content: &str) -> (rest: String)
    ensures
        rest@ == without_frontmatter(content@),
        !has_heading(content@) ==> rest@.len() == 0,
{
    let ls = lines_of(content);
    let first: usize = heading_position(&ls);
    let mut rest = String::new();
    let mut i: usize = first;
    while i < ls.len()
        invariant
            first <= i <= ls.len(),
            rest@ == join_lines(line_views(ls@).subrange(first as int, i as int)),
        decreases ls.len() - i,
    {
        let ghost done = line_views(ls@).subrange(first as int, i as int);
        let ghost next = line_views(ls@).subrange(first as int, i + 1);
        proof {
            assert(next.drop_last() == done);
            assert(next.last() == ls@[i as int]@);
            assert(ls@[i as int]@.subrange(0, ls@[i as int]@.len() as int) == ls@[i as int]@);
        }
        if i > first {
            rest.push('\n');
        }
        push_chars(&mut rest, &ls[i], 0);
        i += 1;
    }
    rest
}

/// The title of `content`: its first heading without the two characters of
/// the marker. There is none where `content` has no heading, or nothing but
/// the marker in it.
pub fn parse_title(content: &str) -> (title: Result<String, FrontmatterError>)
    ensures
        title is Ok <==> title_of(content@) is Some,
        title matches Ok(t) ==> title_of(content@) == Some(t@),
        title matches Err(e) ==> e == FrontmatterError::MissingTitle,
{
    let ls = lines_of(content);
    let index: usize = heading_position(&ls);
    if index >= ls.len() {
        return Err(FrontmatterError::MissingTitle);
    }
    let heading = &ls[index];
    if heading.len() <= 2 {
        return Err(FrontmatterError::MissingTitle);
    }
    let mut title = String::new();
    push_chars(&mut title, heading, 2);
    Ok(title)
}

/// The metadata of a document: its title, the day of its creation and the
/// day of its last modification.
#[derive(Debug)]
pub struct Frontmatter {
    title: String,
    created: Date,
    modified: Date,
}

impl View for Frontmatter {
    type V = Record;

    closed spec fn view(&self) -> Record {
        Record { title: self.title@, created: self.created@, modified: self.modified@ }
    }
}

/// Whether `title` can be the title of a document.
fn is_valid_title(title: &str) -> (valid: bool)
    ensures
        valid == valid_title(title@),
{
    let chars = chars_of(title);
    if chars.len() == 0 {
        return false;
    }
    let mut i: usize = 0;
    while i < chars.len()
        invariant
            i <= chars.len(),
            chars@ == title@,
            single_line(chars@.subrange(0, i as int)),
        decreases chars.len() - i,
    {
        if chars[i] == '\n' {
            return false;
        }
        i += 1;
    }
    assert(chars@.subrange(0, i as int) == chars@);
    true
}

/// Appends the line of three hyphens that opens and closes a block.
fn push_delimiter(out: &mut String)
    ensures
        final(out)@ == old(out)@ + line("---"@),
{
    out.append("---");
    out.push('\n');
}

/// Appends the line that gives the field `name` the value `value`.
fn push_field(out: &mut String, name: &str, value: &str)
    ensures
        final(out)@ == old(out)@ + line(name@ + value@),
{
    out.append(name);
    out.append(value);
    out.push('\n');
}

impl Frontmatter {
    /// Every value has a title that is one; its dates are valid as all dates
    /// are.
    #[verifier::type_invariant]
    pub open spec fn wf(&self) -> bool {
        self@.wf()
    }

    /// The metadata with the given title and days, if `title` can be a title.
    pub fn new(title: String, created: Date, modified: Date) -> (frontmatter: Option<Frontmatter>)
        ensures
            frontmatter is Some <==> valid_title(title@),
            frontmatter matches Some(f) ==> f@ == (Record {
                title: title@,
                created: created@,
                modified: modified@,
            }),
            frontmatter matches Some(f) ==> f@.wf(),
    {
        proof {
            use_type_invariant(created);
            use_type_invariant(modified);
        }
        if is_valid_title(title.as_str()) {
            Some(Frontmatter { title, created, modified })
        } else {
            None
        }
    }

    /// The frontmatter block without the day of modification.
    pub fn without_modified(&self) -> (block: String)
        ensures
            block@ == self@.without_modified(),
    {
        let created = self.created.to_iso_string();
        let mut block = String::new();
        push_delimiter(&mut block);
        push_field(&mut block, "title: ", self.title.as_str());
        push_field(&mut block, "publishDate: ", created.as_str());
        push_delimiter(&mut block);
        block
    }

    /// The frontmatter block with the day of modification.
    pub fn with_modified(&self) -> (block: String)
        ensures
            block@ == self@.with_modified(),
    {
        let created = self.created.to_iso_string();
        let modified = self.modified.to_iso_string();
        let mut block = String::new();
        push_delimiter(&mut block);
        push_field(&mut block, "title: ", self.title.as_str());
        push_field(&mut block, "publishDate: ", created.as_str());
        push_field(&mut block, "updatedDate: ", modified.as_str());
        push_delimiter(&mut block);
        block
    }

    /// The title.
    pub fn title(&self) -> (title: &str)
        ensures
            title@ == self@.title,
            valid_title(title@),
    {
        proof {
            use_type_invariant(self);
        }
        self.title.as_str()
    }

    /// The day of creation.
    pub fn created(&self) -> (created: Date)
        ensures
            created@ == self@.created,
            created@.valid(),
    {
        proof {
            use_type_invariant(self);
        }
        self.created
    }

    /// The day of the last modification.
    pub fn modified(&self) -> (modified: Date)
        ensures
            modified@ == self@.modified,
            modified@.valid(),
    {
        proof {
            use_type_invariant(self);
        }
        self.modified
    }
}

impl Clone for Frontmatter {
    fn clone(&self) -> (copy: Frontmatter)
        ensures
            copy@ == self@,
    {
        proof {
            use_type_invariant(self);
        }
        Frontmatter { title: self.title.clone(), created: self.created, modified: self.modified }
    }
}

/// `content` with the frontmatter block of `frontmatter` and an empty line
/// before it; the block holds the day of modification if `with_modified`.
pub fn add_frontmatter(content: &str, frontmatter: Frontmatter, with_modified: bool) -> (text:
    String)
    ensures
        text@ == with_frontmatter(content@, frontmatter@, with_modified),
{
    let mut text = if with_modified {
        frontmatter.with_modified()
    } else {
        frontmatter.without_modified()
    };
    text.push('\n');
    text.append(content);
    text
}

/// The metadata of the document `content` that was created on the day
/// `created` and last modified on the day `modified`. There is none where a
/// day is missing; where both are there, a text without a title has none.
pub fn dated_frontmatter(content: &str, created: Option<Date>, modified: Option<Date>) -> (found:
    Result<Frontmatter, FrontmatterError>)
    ensures
        record_of(found) == derived(content@, view_of(created), view_of(modified)),
        found matches Ok(f) ==> f@.wf(),
{
    let (created, modified) = match (created, modified) {
        (Some(created), Some(modified)) => (created, modified),
        _ => {
            return Err(FrontmatterError::UnsupportedTimestamp);
        },
    };
    let title = match parse_title(content) {
        Ok(title) => title,
        Err(e) => {
            return Err(e);
        },
    };
    proof {
        lemma_title_valid(content@);
        use_type_invariant(created);
        use_type_invariant(modified);
    }
    Ok(Frontmatter { title, created, modified })
}

/// The metadata of the document `content` whose file was created `created`
/// seconds and last modified `modified` seconds after the start of 1970 in
/// UTC; `None` stands for a time that the file system does not tell. The
/// days are those of the two instants in UTC.
///
/// There is none where a time is missing or falls on no day that a date can
/// hold; where both have their days, a text without a title has none.
pub fn find_frontmatter(content: &str, created: Option<i64>, modified: Option<i64>) -> (found:
    Result<Frontmatter, FrontmatterError>)
    ensures
        record_of(found) == derived(content@, utc_day(created), utc_day(modified)),
        found matches Ok(f) ==> f@.wf(),
        found is Ok <==> has_day(created) && has_day(modified) && title_of(content@) is Some,
{
    let created = match created {
        Some(secs) => Date::from_timestamp(secs),
        None => None,
    };
    let modified = match modified {
        Some(secs) => Date::from_timestamp(secs),
        None => None,
    };
    dated_frontmatter(content, created, modified)
}

} // verus!
