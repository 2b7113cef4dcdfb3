use markdown_frontmatter::date::Date;
use markdown_frontmatter::frontmatter::add_frontmatter;
use markdown_frontmatter::frontmatter::dated_frontmatter;
use markdown_frontmatter::frontmatter::delete_frontmatter;
use markdown_frontmatter::frontmatter::find_frontmatter;
use markdown_frontmatter::frontmatter::find_line_of_header;
use markdown_frontmatter::frontmatter::has_frontmatter;
use markdown_frontmatter::frontmatter::parse_title;
use markdown_frontmatter::frontmatter::Frontmatter;
use markdown_frontmatter::frontmatter::FrontmatterError;

#[test]
fn test_has_frontmatter() {
    let content = "---\ntitle: Hello\ncreated: 2021-01-01\nmodified: 2021-01-01\n---\n";
    assert!(has_frontmatter(content));
}

#[test]
fn test_delete_frontmatter() {
    let content =
        "---\ntitle: Hello\ncreated: 2021-01-01\nmodified: 2021-01-01\n---\n# Hello, World!";
    assert_eq!(delete_frontmatter(content), "# Hello, World!");
}

#[test]
fn test_add_frontmatter_with_modified() {
    let content = "Hello, World!";
    let frontmatter = Frontmatter::new(
        "Hello".to_string(),
        Date::from_ymd_opt(2021, 1, 1).unwrap(),
        Date::from_ymd_opt(2021, 1, 1).unwrap(),
    )
    .unwrap();
    let expected =
        "---\ntitle: Hello\npublishDate: 2021-01-01\nupdatedDate: 2021-01-01\n---\n\nHello, World!";
    assert_eq!(add_frontmatter(content, frontmatter, true), expected);
}

#[test]
fn test_add_frontmatter_without_modified() {
    let content = "Hello, World!";
    let frontmatter = Frontmatter::new(
        "Hello".to_string(),
        Date::from_ymd_opt(2021, 1, 1).unwrap(),
        Date::from_ymd_opt(2021, 1, 1).unwrap(),
    )
    .unwrap();
    let expected = "---\ntitle: Hello\npublishDate: 2021-01-01\n---\n\nHello, World!";
    assert_eq!(add_frontmatter(content, frontmatter, false), expected);
}

#[test]
fn test_find_line_of_header() {
    let content = "# Hello World!";
    assert_eq!(find_line_of_header(content), 0);
}

#[test]
fn test_parse_title() {
    let content = "# Hello World!";
    assert_eq!(parse_title(content), Ok("Hello World!".to_string()));
}

fn date(year: i32, month: u32, day: u32) -> Date {
    Date::from_ymd_opt(year, month, day).unwrap()
}

fn hello() -> Frontmatter {
    Frontmatter::new("Hello".to_string(), date(2021, 1, 1), date(2021, 1, 2)).unwrap()
}

#[test]
fn has_frontmatter_needs_three_hyphens_at_the_start() {
    assert!(has_frontmatter("---"));
    assert!(has_frontmatter("----"));
    assert!(has_frontmatter("---title"));
    assert!(!has_frontmatter(""));
    assert!(!has_frontmatter("-"));
    assert!(!has_frontmatter("--"));
    assert!(!has_frontmatter("--x-"));
    assert!(!has_frontmatter(" ---"));
    assert!(!has_frontmatter("\n---"));
    assert!(!has_frontmatter("\u{2014}--"));
    assert!(!has_frontmatter("# Title\n---\n"));
}

#[test]
fn delete_frontmatter_without_heading_leaves_nothing() {
    assert_eq!(delete_frontmatter("no frontmatter\nand no heading\n"), "");
    assert_eq!(delete_frontmatter("---\ntitle: x\n---\n"), "");
    assert_eq!(delete_frontmatter("## second level\n#no space\n"), "");
    assert_eq!(delete_frontmatter(""), "");
    assert_eq!(delete_frontmatter(&delete_frontmatter("some text")), "");
}

#[test]
fn delete_frontmatter_keeps_the_lines_from_the_heading_on() {
    assert_eq!(delete_frontmatter("a\nb\n# T\nc\nd"), "# T\nc\nd");
    assert_eq!(delete_frontmatter("# T\nc\n# U\nd"), "# T\nc\n# U\nd");
    assert_eq!(delete_frontmatter("a\n# T\n\nc"), "# T\n\nc");
    assert_eq!(delete_frontmatter("a\n #T\n# "), "# ");
}

#[test]
fn delete_frontmatter_joins_lines_with_single_line_feeds() {
    assert_eq!(delete_frontmatter("---\r\n# T\r\nbody\r\n"), "# T\nbody");
    assert_eq!(delete_frontmatter("# T\nbody\n"), "# T\nbody");
    assert_eq!(delete_frontmatter("# T\n\n"), "# T\n");
    assert_eq!(delete_frontmatter("# T\r"), "# T\r");
    assert_eq!(delete_frontmatter("# T\r\r\nx"), "# T\r\nx");
    assert_eq!(delete_frontmatter("x\n# T\u{e9}\n\u{1f600}"), "# T\u{e9}\n\u{1f600}");
}

#[test]
fn find_line_of_header_counts_the_lines_before_the_heading() {
    let content =
        "---\ntitle: Hello\ncreated: 2021-01-01\nmodified: 2021-01-01\n---\n# Hello, World!";
    assert_eq!(find_line_of_header(content), 5);
    assert_eq!(find_line_of_header("a\r\n\r\n# T"), 2);
    assert_eq!(find_line_of_header("#\n# \n"), 1);
}

#[test]
fn find_line_of_header_without_heading_is_the_number_of_lines() {
    assert_eq!(find_line_of_header(""), 0);
    assert_eq!(find_line_of_header("\n"), 1);
    assert_eq!(find_line_of_header("a\nb"), 2);
    assert_eq!(find_line_of_header("a\nb\n"), 2);
    assert_eq!(find_line_of_header("a\nb\n\n"), 3);
    assert_eq!(find_line_of_header("## T\n#T\n #T"), 3);
}

#[test]
fn parse_title_takes_the_first_heading() {
    assert_eq!(parse_title("intro\n# One\n# Two"), Ok("One".to_string()));
    assert_eq!(parse_title("# Title  \nbody"), Ok("Title  ".to_string()));
    assert_eq!(parse_title("#  Title"), Ok(" Title".to_string()));
    assert_eq!(parse_title("# Title\r\nbody"), Ok("Title".to_string()));
    assert_eq!(parse_title("# Gr\u{fc}\u{df}e"), Ok("Gr\u{fc}\u{df}e".to_string()));
}

#[test]
fn parse_title_drops_the_first_marker_only() {
    assert_eq!(parse_title("# # Foo"), Ok("# Foo".to_string()));
    assert_eq!(parse_title("# # Title"), Ok("# Title".to_string()));
    assert_eq!(parse_title("# # # x # y"), Ok("# # x # y".to_string()));
    assert_eq!(parse_title("# #Title"), Ok("#Title".to_string()));
    assert_eq!(parse_title("# #"), Ok("#".to_string()));
    assert_eq!(parse_title("# # "), Ok("# ".to_string()));
    assert_eq!(parse_title("a\n# # \nbody"), Ok("# ".to_string()));
    assert_eq!(parse_title("#   x"), Ok("  x".to_string()));
}

#[test]
fn parse_title_without_title_fails() {
    assert_eq!(parse_title(""), Err(FrontmatterError::MissingTitle));
    assert_eq!(parse_title("Hello, World!"), Err(FrontmatterError::MissingTitle));
    assert_eq!(parse_title("## Hello"), Err(FrontmatterError::MissingTitle));
    assert_eq!(parse_title("#Hello"), Err(FrontmatterError::MissingTitle));
    assert_eq!(parse_title("# "), Err(FrontmatterError::MissingTitle));
    assert_eq!(parse_title("# \r\n# Next"), Err(FrontmatterError::MissingTitle));
}

#[test]
fn new_takes_a_title_that_is_one() {
    let d = date(2021, 1, 1);
    let f = Frontmatter::new("Hello, World!".to_string(), d, date(2022, 2, 3)).unwrap();
    assert_eq!(f.title(), "Hello, World!");
    assert_eq!(f.created(), d);
    assert_eq!(f.modified(), date(2022, 2, 3));
    assert!(Frontmatter::new("#Hello".to_string(), d, d).is_some());
    assert!(Frontmatter::new("ends with return\r".to_string(), d, d).is_some());
    assert!(Frontmatter::new("".to_string(), d, d).is_none());
    assert!(Frontmatter::new("two\nlines".to_string(), d, d).is_none());
    assert!(Frontmatter::new("line\n".to_string(), d, d).is_none());
    let marked = Frontmatter::new("# Hello".to_string(), d, d).unwrap();
    assert_eq!(marked.title(), "# Hello");
    assert_eq!(marked.without_modified(), "---\ntitle: # Hello\npublishDate: 2021-01-01\n---\n");
}

#[test]
fn clone_keeps_the_metadata() {
    let f = hello();
    let g = f.clone();
    assert_eq!(g.title(), "Hello");
    assert_eq!(g.created(), date(2021, 1, 1));
    assert_eq!(g.modified(), date(2021, 1, 2));
    assert_eq!(g.with_modified(), f.with_modified());
}

#[test]
fn with_modified_gives_both_days() {
    assert_eq!(
        hello().with_modified(),
        "---\ntitle: Hello\npublishDate: 2021-01-01\nupdatedDate: 2021-01-02\n---\n"
    );
}

#[test]
fn without_modified_gives_the_day_of_creation_only() {
    assert_eq!(hello().without_modified(), "---\ntitle: Hello\npublishDate: 2021-01-01\n---\n");
}

#[test]
fn blocks_differ_by_the_update_line() {
    let f = Frontmatter::new("A: b --- c".to_string(), date(-44, 3, 15), date(12345, 6, 7)).unwrap();
    let short = f.without_modified();
    let long = f.with_modified();
    let cut = short.len() - 4;
    assert_eq!(
        long,
        format!("{}updatedDate: +12345-06-07\n{}", &short[..cut], &short[cut..])
    );
    assert_eq!(short, "---\ntitle: A: b --- c\npublishDate: -0044-03-15\n---\n");
    for block in [short, long] {
        assert!(block.starts_with("---"));
        assert!(block.ends_with("---\n"));
        assert!(has_frontmatter(&block));
    }
}

#[test]
fn add_frontmatter_puts_an_empty_line_before_the_text() {
    assert_eq!(
        add_frontmatter("", hello(), false),
        "---\ntitle: Hello\npublishDate: 2021-01-01\n---\n\n"
    );
    assert_eq!(
        add_frontmatter("\n# T\r\n", hello(), true),
        "---\ntitle: Hello\npublishDate: 2021-01-01\nupdatedDate: 2021-01-02\n---\n\n\n# T\r\n"
    );
    assert!(has_frontmatter(&add_frontmatter("body", hello(), false)));
}

#[test]
fn delete_after_add_gives_the_text_from_its_heading_on() {
    let bodies = [
        "# Hello\nfirst\nsecond",
        "intro\n\n# Hello\r\nfirst\n",
        "no heading at all",
        "",
        "# only",
        "---\n# a\n---\n",
    ];
    for body in bodies {
        for with_modified in [true, false] {
            let added = add_frontmatter(body, hello(), with_modified);
            assert_eq!(delete_frontmatter(&added), delete_frontmatter(body));
        }
    }
    let added = add_frontmatter("intro\n\n# Hello\r\nfirst\n", hello(), true);
    assert_eq!(delete_frontmatter(&added), "# Hello\nfirst");
}

#[test]
fn find_frontmatter_takes_title_and_days() {
    let f = find_frontmatter("# Hello World!", Some(1_609_459_200), Some(1_609_545_599)).unwrap();
    assert_eq!(f.title(), "Hello World!");
    assert_eq!(f.created(), date(2021, 1, 1));
    assert_eq!(f.modified(), date(2021, 1, 1));
    let g = find_frontmatter("a\n# T\nb", Some(-1), Some(1_609_545_600)).unwrap();
    assert_eq!(g.title(), "T");
    assert_eq!(g.created(), date(1969, 12, 31));
    assert_eq!(g.modified(), date(2021, 1, 2));
    assert_eq!(g.with_modified(), "---\ntitle: T\npublishDate: 1969-12-31\nupdatedDate: 2021-01-02\n---\n");
}

#[test]
fn find_frontmatter_has_the_title_whatever_the_times() {
    for created in [i64::MIN / 1_000_000_000, -86_401, 0, 1, 1_700_000_000, 4_102_444_800] {
        for modified in [-1, 0, 951_782_400, 253_402_300_799] {
            let f = find_frontmatter("# Hello World!", Some(created), Some(modified)).unwrap();
            assert_eq!(f.title(), "Hello World!");
        }
    }
}

#[test]
fn find_frontmatter_without_heading_fails() {
    let texts = ["", "Hello, World!", "## Hello", "---\ntitle: x\n---\nbody", "# ", "#\n #x"];
    for text in texts {
        assert_eq!(
            find_frontmatter(text, Some(0), Some(0)).unwrap_err(),
            FrontmatterError::MissingTitle
        );
        assert_eq!(
            find_frontmatter(text, Some(-8_334_601_228_800), Some(8_210_266_876_799)).unwrap_err(),
            FrontmatterError::MissingTitle
        );
    }
}

#[test]
fn find_frontmatter_without_a_time_fails() {
    for text in ["# Hello", "no heading", "", "# "] {
        assert_eq!(
            find_frontmatter(text, None, Some(0)).unwrap_err(),
            FrontmatterError::UnsupportedTimestamp
        );
        assert_eq!(
            find_frontmatter(text, Some(0), None).unwrap_err(),
            FrontmatterError::UnsupportedTimestamp
        );
        assert_eq!(
            find_frontmatter(text, None, None).unwrap_err(),
            FrontmatterError::UnsupportedTimestamp
        );
    }
}

#[test]
fn find_frontmatter_with_a_time_out_of_range_fails() {
    for text in ["# Hello", "no heading"] {
        assert_eq!(
            find_frontmatter(text, Some(i64::MAX), Some(0)).unwrap_err(),
            FrontmatterError::UnsupportedTimestamp
        );
        assert_eq!(
            find_frontmatter(text, Some(0), Some(i64::MIN)).unwrap_err(),
            FrontmatterError::UnsupportedTimestamp
        );
        assert_eq!(
            find_frontmatter(text, Some(8_210_266_876_800), Some(0)).unwrap_err(),
            FrontmatterError::UnsupportedTimestamp
        );
        assert_eq!(
            find_frontmatter(text, Some(0), Some(-8_334_601_228_801)).unwrap_err(),
            FrontmatterError::UnsupportedTimestamp
        );
    }
}

#[test]
fn find_frontmatter_does_not_swap_the_days() {
    let f = find_frontmatter("# T", Some(86_400), Some(10 * 86_400)).unwrap();
    assert_eq!(f.created(), date(1970, 1, 2));
    assert_eq!(f.modified(), date(1970, 1, 11));
    let f = find_frontmatter("# T", Some(-8_334_601_228_800), Some(8_210_266_876_799)).unwrap();
    assert_eq!(f.created(), date(-262_143, 1, 1));
    assert_eq!(f.modified(), date(262_142, 12, 31));
}

#[test]
fn find_frontmatter_keeps_a_second_marker_in_the_title() {
    let f = find_frontmatter("intro\n# # Foo\n# Bar", Some(0), Some(0)).unwrap();
    assert_eq!(f.title(), "# Foo");
    let f = find_frontmatter("# # ", Some(0), Some(0)).unwrap();
    assert_eq!(f.title(), "# ");
    assert_eq!(f.without_modified(), "---\ntitle: # \npublishDate: 1970-01-01\n---\n");
}

#[test]
fn dated_frontmatter_takes_the_days_as_they_are() {
    let f = dated_frontmatter("x\n# Title", Some(date(2000, 2, 29)), Some(date(2001, 3, 1))).unwrap();
    assert_eq!(f.title(), "Title");
    assert_eq!(f.created(), date(2000, 2, 29));
    assert_eq!(f.modified(), date(2001, 3, 1));
    assert_eq!(
        dated_frontmatter("# Title", None, Some(date(2001, 3, 1))).unwrap_err(),
        FrontmatterError::UnsupportedTimestamp
    );
    assert_eq!(
        dated_frontmatter("# Title", Some(date(2001, 3, 1)), None).unwrap_err(),
        FrontmatterError::UnsupportedTimestamp
    );
    assert_eq!(
        dated_frontmatter("Title", Some(date(2001, 3, 1)), None).unwrap_err(),
        FrontmatterError::UnsupportedTimestamp
    );
    assert_eq!(
        dated_frontmatter("Title", None, None).unwrap_err(),
        FrontmatterError::UnsupportedTimestamp
    );
    assert_eq!(
        dated_frontmatter("Title", Some(date(2001, 3, 1)), Some(date(2001, 3, 1))).unwrap_err(),
        FrontmatterError::MissingTitle
    );
}

#[test]
fn delete_frontmatter_twice_is_once_for_stable_lines() {
    let texts = [
        "",
        "no heading\r\nat all\n\n",
        "---\ntitle: x\n---\n\n# T\nbody",
        "intro\n# T\n\nbody\r",
        "# T",
        "x\r\n# T\r\nbody\r\n",
    ];
    for text in texts {
        let once = delete_frontmatter(text);
        assert_eq!(delete_frontmatter(&once), once);
    }
}

#[test]
fn delete_frontmatter_twice_is_not_once_for_other_lines() {
    assert_eq!(delete_frontmatter("# T\n\n"), "# T\n");
    assert_eq!(delete_frontmatter("# T\n"), "# T");
    assert_eq!(delete_frontmatter("# T\r\r\nbody"), "# T\r\nbody");
    assert_eq!(delete_frontmatter("# T\r\nbody"), "# T\nbody");
}

#[test]
fn delete_frontmatter_begins_with_the_heading() {
    for text in ["a\n# T\nb", "# T\r\n", "---\n---\n# # T # \n# U"] {
        let rest = delete_frontmatter(text);
        assert!(rest.starts_with("# "));
        assert_eq!(find_line_of_header(&rest), 0);
    }
}

#[test]
fn title_of_a_heading_is_what_follows_the_marker() {
    for title in ["Hello World!", "a", "#", " # x", "# x", "# ", "x\r", "\u{1f600} # "] {
        let text = format!("# {title}");
        assert_eq!(parse_title(&text), Ok(title.to_string()));
        let f = find_frontmatter(&text, Some(0), Some(0)).unwrap();
        assert_eq!(f.title(), title);
    }
}
