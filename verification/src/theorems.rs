//! What holds of frontmatter whatever the text: what taking it away
//! leaves, how the two blocks of a record differ, and that a text which was
//! given frontmatter is left alone afterwards.

use crate::date::lemma_iso_text_single_line;
use crate::date::CalendarDate;
use crate::document::bare;
use crate::document::transformed;
use crate::frontmatter::delimited;
use crate::frontmatter::derived;
use crate::frontmatter::from_heading;
use crate::frontmatter::has_heading;
use crate::frontmatter::heading_index;
use crate::frontmatter::is_heading;
use crate::frontmatter::lemma_heading_first;
use crate::frontmatter::lemma_title_valid;
use crate::frontmatter::title_of;
use crate::frontmatter::valid_title;
use crate::frontmatter::with_frontmatter;
use crate::frontmatter::without_frontmatter;
use crate::frontmatter::FrontmatterError;
use crate::frontmatter::Record;
use crate::text::join_lines;
use crate::text::lemma_join_lines_first;
use crate::text::lemma_lines_cons;
use crate::text::lemma_lines_of_joined;
use crate::text::lemma_lines_last;
use crate::text::line;
use crate::text::lines;
use crate::text::single_line;
use crate::text::stable;
use crate::text::strip_cr;
use vstd::prelude::*;

verus! {

/// Lines of which none is a heading, put before other lines, move the first
/// heading back by their number, and what begins at the first heading stays
/// what it was.
pub proof fn lemma_heading_after(before: Seq<Seq<char>>, ls: Seq<Seq<char>>)
    requires
        forall|i: int| 0 <= i < before.len() ==> !is_heading(#[trigger] before[i]),
    ensures
        heading_index(before + ls) == before.len() + heading_index(ls),
        (before + ls).skip(heading_index(before + ls)) == ls.skip(heading_index(ls)),
    decreases before.len(),
{
    lemma_heading_first(ls);
    if before.len() > 0 {
        let rest = before.drop_first();
        assert((before + ls).drop_first() == rest + ls);
        assert((before + ls)[0] == before[0]);
        assert forall|i: int| 0 <= i < rest.len() implies !is_heading(#[trigger] rest[i]) by {
            assert(rest[i] == before[i + 1]);
        }
        lemma_heading_after(rest, ls);
    } else {
        assert(before + ls == ls);
    }
}

/// Whether `content` holds no line feed and does not begin with a hash
/// sign: as a line it is one line, and no heading.
pub open spec fn plain(content: Seq<char>) -> bool {
    single_line(content) && (content.len() > 0 ==> content[0] != '#')
}

/// A plain line at the start of a text is none of the lines from the text's
/// first heading on.
pub proof fn lemma_plain_line_skipped(content: Seq<char>, rest: Seq<char>)
    requires
        plain(content),
    ensures
        from_heading(line(content) + rest) == from_heading(rest),
{
    lemma_lines_cons(content, rest);
    lemma_heading_after(seq![strip_cr(content)], lines(rest));
}

/// The field `name` with a value on one line is a plain line.
proof fn lemma_field_plain(name: Seq<char>, value: Seq<char>)
    requires
        plain(name),
        name.len() > 0,
        single_line(value),
    ensures
        plain(name + value),
{
    assert((name + value)[0] == name[0]);
}

/// The lines of a frontmatter block are plain lines.
proof fn lemma_block_plain(record: Record)
    requires
        record.wf(),
    ensures
        plain("---"@),
        plain("title: "@ + record.title),
        plain("publishDate: "@ + record.created.iso_text()),
        plain("updatedDate: "@ + record.modified.iso_text()),
{
    reveal_strlit("---");
    reveal_strlit("title: ");
    reveal_strlit("publishDate: ");
    reveal_strlit("updatedDate: ");
    lemma_iso_text_single_line(record.created);
    lemma_iso_text_single_line(record.modified);
    lemma_field_plain("title: "@, record.title);
    lemma_field_plain("publishDate: "@, record.created.iso_text());
    lemma_field_plain("updatedDate: "@, record.modified.iso_text());
}

/// Taking the frontmatter away from a text that was given frontmatter
/// leaves what it leaves of the text itself: the text's lines from its
/// first heading on, with one line feed between each two.
pub proof fn lemma_delete_after_add(body: Seq<char>, record: Record, with_modified: bool)
    requires
        record.wf(),
    ensures
        without_frontmatter(with_frontmatter(body, record, with_modified)) == without_frontmatter(
            body,
        ),
        without_frontmatter(with_frontmatter(body, record, with_modified)) == join_lines(
            lines(body).skip(heading_index(lines(body))),
        ),
{
    lemma_block_plain(record);
    let rule = "---"@;
    let title = "title: "@ + record.title;
    let publish = "publishDate: "@ + record.created.iso_text();
    let update = "updatedDate: "@ + record.modified.iso_text();
    let blank = Seq::<char>::empty();
    let t5 = line(blank) + body;
    let t4 = line(rule) + t5;
    let t3 = if with_modified {
        line(update) + t4
    } else {
        t4
    };
    let t2 = line(publish) + t3;
    let t1 = line(title) + t2;
    assert(with_frontmatter(body, record, with_modified) == line(rule) + t1);
    lemma_plain_line_skipped(rule, t1);
    lemma_plain_line_skipped(title, t2);
    lemma_plain_line_skipped(publish, t3);
    if with_modified {
        lemma_plain_line_skipped(update, t4);
    }
    lemma_plain_line_skipped(rule, t5);
    lemma_plain_line_skipped(blank, body);
}

/// What is left of a text with a heading, when its frontmatter is taken
/// away, begins with that heading.
pub proof fn lemma_delete_keeps_heading(text: Seq<char>)
    requires
        has_heading(text),
    ensures
        lines(text)[heading_index(lines(text))].is_prefix_of(without_frontmatter(text)),
        is_heading(without_frontmatter(text)),
{
    lemma_heading_first(lines(text));
    lemma_join_lines_first(from_heading(text));
}

/// Taking the frontmatter away a second time changes nothing, if the lines
/// from the first heading on are stable. They are where the text has no
/// heading.
pub proof fn lemma_delete_twice(text: Seq<char>)
    requires
        stable(from_heading(text)),
    ensures
        without_frontmatter(without_frontmatter(text)) == without_frontmatter(text),
{
    let kept = from_heading(text);
    lemma_heading_first(lines(text));
    lemma_lines_of_joined(kept);
    if kept.len() > 0 {
        assert(kept[0] == lines(text)[heading_index(lines(text))]);
        assert(heading_index(kept) == 0);
        assert(kept.skip(0) == kept);
    }
}

/// The lines of what is left of a text, when its frontmatter is taken away,
/// are the lines of the text from its first heading on, if these are stable.
pub proof fn lemma_delete_lines(text: Seq<char>)
    requires
        stable(from_heading(text)),
    ensures
        lines(without_frontmatter(text)) == from_heading(text),
{
    lemma_lines_of_joined(from_heading(text));
}

/// Of a text without a heading nothing is left when its frontmatter is taken
/// away, and so nothing changes when it is taken away once more.
pub proof fn lemma_delete_without_heading(text: Seq<char>)
    requires
        !has_heading(text),
    ensures
        without_frontmatter(text) == Seq::<char>::empty(),
        without_frontmatter(without_frontmatter(text)) == without_frontmatter(text),
{
    lemma_heading_first(lines(text));
    assert(from_heading(text) == Seq::<Seq<char>>::empty());
    assert(from_heading(Seq::<char>::empty()) == Seq::<Seq<char>>::empty());
}

/// A text without a heading has no title, and so no metadata, whatever the
/// days of its creation and modification are.
pub proof fn lemma_missing_title(text: Seq<char>, created: CalendarDate, modified: CalendarDate)
    requires
        !has_heading(text),
    ensures
        title_of(text) is None,
        derived(text, Some(created), Some(modified)) matches Err(FrontmatterError::MissingTitle),
{
}

/// Where the day of creation or of modification is missing there is no
/// metadata, whatever the text.
pub proof fn lemma_missing_day(
    text: Seq<char>,
    created: Option<CalendarDate>,
    modified: Option<CalendarDate>,
)
    requires
        created is None || modified is None,
    ensures
        derived(text, created, modified) matches Err(FrontmatterError::UnsupportedTimestamp),
{
}

/// A text that is one heading has the title that stands after the marker,
/// and with it the metadata of that title and the two days.
pub proof fn lemma_title_of_heading(
    title: Seq<char>,
    created: CalendarDate,
    modified: CalendarDate,
)
    requires
        valid_title(title),
    ensures
        title_of(seq!['#', ' '] + title) == Some(title),
        derived(seq!['#', ' '] + title, Some(created), Some(modified)) matches Ok(record)
            && record.title == title && record.created == created && record.modified == modified,
{
    let text = seq!['#', ' '] + title;
    assert(single_line(text)) by {
        assert forall|i: int| 0 <= i < text.len() implies text[i] != '\n' by {
            if i >= 2 {
                assert(text[i] == title[i - 2]);
            }
        }
    }
    lemma_lines_last(text);
    assert(text.skip(2) == title);
}

/// Whether `text` ends with the line of three hyphens that closes a
/// frontmatter block.
pub open spec fn closed(text: Seq<char>) -> bool {
    let n = text.len() as int;
    n >= 4 && text[n - 4] == '-' && text[n - 3] == '-' && text[n - 2] == '-' && text[n - 1]
        == '\n'
}

/// The two frontmatter blocks of a record differ by the line that gives the
/// day of modification and by nothing else: the block with that line is the
/// block without it, with the line put in before the four characters of the
/// closing line.
pub proof fn lemma_blocks_differ(record: Record)
    ensures
        record.without_modified().len() >= 4,
        record.with_modified() == record.without_modified().subrange(
            0,
            record.without_modified().len() - 4,
        ) + record.update_line() + record.without_modified().subrange(
            record.without_modified().len() - 4,
            record.without_modified().len() as int,
        ),
{
    reveal_strlit("---");
    let rule = line("---"@);
    let head = rule + record.title_line() + record.publish_line();
    let short = record.without_modified();
    assert(short.subrange(0, short.len() - 4) == head);
    assert(short.subrange(short.len() - 4, short.len() as int) == rule);
}

/// Both frontmatter blocks of a record begin with three hyphens and end
/// with three hyphens and a line feed, and a text that was given one of them
/// begins with three hyphens.
pub proof fn lemma_blocks_delimited(record: Record, with_modified: bool, text: Seq<char>)
    ensures
        delimited(record.block(with_modified)),
        closed(record.block(with_modified)),
        delimited(with_frontmatter(text, record, with_modified)),
{
    reveal_strlit("---");
    let rule = line("---"@);
    let short = rule + record.title_line() + record.publish_line();
    let long = short + record.update_line();
    assert(record.without_modified() == short + rule);
    assert(record.with_modified() == long + rule);
    assert(rule.is_prefix_of(short));
    assert(rule.is_prefix_of(long));
}

/// A text that took the place of another stays as it is from then on, as
/// long as no deletion is allowed.
pub proof fn lemma_transformed_once(
    text: Seq<char>,
    created: Option<CalendarDate>,
    modified: Option<CalendarDate>,
    allow_deletion: bool,
    with_modified: bool,
    later_created: Option<CalendarDate>,
    later_modified: Option<CalendarDate>,
    later_with_modified: bool,
)
    ensures
        transformed(text, created, modified, allow_deletion, with_modified) matches Ok(Some(next))
            ==> (transformed(next, later_created, later_modified, false, later_with_modified)
            matches Ok(None)),
{
    if let Ok(Some(next)) = transformed(text, created, modified, allow_deletion, with_modified) {
        let record = derived(bare(text), created, modified)->Ok_0;
        lemma_blocks_delimited(record, with_modified, bare(text));
    }
}

/// What is left of a text that took the place of another, when its
/// frontmatter is taken away, is what is left of the other without the
/// frontmatter that it may have had.
pub proof fn lemma_transformed_keeps_body(
    text: Seq<char>,
    created: Option<CalendarDate>,
    modified: Option<CalendarDate>,
    allow_deletion: bool,
    with_modified: bool,
)
    requires
        created matches Some(c) ==> c.valid(),
        modified matches Some(m) ==> m.valid(),
    ensures
        transformed(text, created, modified, allow_deletion, with_modified) matches Ok(Some(next))
            ==> without_frontmatter(next) == without_frontmatter(bare(text)),
{
    if let Ok(Some(next)) = transformed(text, created, modified, allow_deletion, with_modified) {
        let record = derived(bare(text), created, modified)->Ok_0;
        lemma_title_valid(bare(text));
        lemma_delete_after_add(bare(text), record, with_modified);
    }
}

} // verus!
