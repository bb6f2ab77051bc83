use itazuraneko_backup::entry::Entry;
use itazuraneko_backup::extractor::extract_entries;
use itazuraneko_backup::pattern::{
    find_capture_end, find_captures, find_digits_end, occurs, pattern_entries, text_between,
    RowPattern,
};

fn entry(fields: [&str; 7]) -> Entry {
    Entry::new(
        fields[0].to_string(),
        fields[1].to_string(),
        fields[2].to_string(),
        fields[3].to_string(),
        fields[4].to_string(),
        fields[5].to_string(),
        fields[6].to_string(),
    )
}

fn chars(text: &str) -> Vec<char> {
    text.chars().collect()
}

fn row(id: &str, title: &str, author: &str, publisher: &str, link: &str, size: &str, date: &str) -> String {
    format!(
        "<tr><td><a href=\"https://yonde.itazuraneko.org/novelhtml/{}.html\">{}</a></td><td>{}</td><td>{}</td><td><a href=\"{}\">{}</a></td><td>{}</td></tr>",
        id, title, author, publisher, link, size, date
    )
}

fn by_regex(document: &str) -> Vec<Entry> {
    let re = regex::Regex::new(
        r#"<tr><td><a href="https://yonde.itazuraneko.org/novelhtml/(\d+)\.html">(.*?)</a></td><td>(.*?)</td><td>(.*?)</td><td><a href="(.*?)">(.*?)</a></td><td>(.*?)</td></tr>"#,
    )
    .unwrap();
    re.captures_iter(document)
        .map(|cap| {
            Entry::new(
                cap[1].to_string(),
                html_escape::decode_html_entities(&cap[2]).to_string(),
                html_escape::decode_html_entities(&cap[3]).to_string(),
                html_escape::decode_html_entities(&cap[4]).to_string(),
                html_escape::decode_html_entities(&cap[5]).to_string(),
                html_escape::decode_html_entities(&cap[6]).to_string(),
                html_escape::decode_html_entities(&cap[7]).to_string(),
            )
        })
        .collect()
}

fn sample_documents() -> Vec<String> {
    let a = row("42", "Sample Title", "Author A", "Publisher B", "http://x/42.epub", "1.2MB", "2020-01-01");
    let b = row("7", "Tom &amp; Jerry", "B", "Q", "http://x/7.epub?a=1&amp;b=2", "900KB", "2021-12-31");
    let c = row("123456", "", "", "", "", "", "");
    let broken_title = row("8", "two\nlines", "B", "Q", "l", "s", "d");
    let broken_date = row("9", "t", "B", "Q", "l", "s", "d\n");
    let cut = "<tr><td><a href=\"https://yonde.itazuraneko.org/novelhtml/1.html\">A</a></td><td>x</td></tr>";
    let no_digits = "<tr><td><a href=\"https://yonde.itazuraneko.org/novelhtml/.html\">A</a></td><td>a</td><td>p</td><td><a href=\"l\">s</a></td><td>d</td></tr>";
    let letters = "<tr><td><a href=\"https://yonde.itazuraneko.org/novelhtml/12a.html\">A</a></td><td>a</td><td>p</td><td><a href=\"l\">s</a></td><td>d</td></tr>";
    let other_host = "<tr><td><a href=\"https://mirror2.example.org/novelhtml/5.html\">A</a></td><td>a</td><td>p</td><td><a href=\"l\">s</a></td><td>d</td></tr>";
    let nested = row("11", "t</td><td>u", "a\">b", "p</a></td><td>q", "l</td></tr>", "s\"> ", "d</td>");
    vec![
        String::new(),
        "no rows at all".to_string(),
        a.clone(),
        format!("<table>{}{}{}</table>", a, b, c),
        format!("<table>\n{}\n{}\n{}\n</table>\n", a, b, c),
        format!("{} junk {}", a, a),
        broken_title.clone(),
        format!("{}{}{}", broken_title, a, broken_date),
        format!("{}{}", cut, a),
        format!("{}\n{}", cut, a),
        format!("{}{}{}", cut, cut, b),
        no_digits.to_string(),
        letters.to_string(),
        other_host.to_string(),
        format!("{}{}{}", no_digits, a, letters),
        nested.clone(),
        format!("{}{}", nested, c),
        format!("<tr><td><a href=\"https://yonde.itazuraneko.org/novelhtml/{}", a),
        format!("<tr><td><a href=\"https://yonde.itazuraneko.org/novelhtml/3{}", a),
        "<tr><td><a href=\"https://yonde.itazuraneko.org/novelhtml/3.html\">".to_string(),
        "<tr><td><a href=\"https://yonde.itazuraneko.org/novelhtml/3".to_string(),
        row("5", "\u{5c0f}\u{8aac} \u{1f4da}", "\u{4f5c}\u{8005}", "P", "http://x/\u{672c}.epub", "1MB", "\u{4ee4}\u{548c}"),
    ]
}

#[test]
fn one_row_is_found() {
    let document = row("42", "Sample Title", "Author A", "Publisher B", "http://x/42.epub", "1.2MB", "2020-01-01");
    assert_eq!(
        pattern_entries(&document),
        vec![entry(["42", "Sample Title", "Author A", "Publisher B", "http://x/42.epub", "1.2MB", "2020-01-01"])]
    );
}

#[test]
fn rows_are_found_from_left_to_right() {
    let document = format!(
        "<table>\n{}\n<!-- between -->{}{}</table>",
        row("1", "One", "A", "P", "http://x/1.epub", "1MB", "2001"),
        row("2", "Two &amp; more", "B", "Q", "http://x/2.epub", "2MB", "2002"),
        row("3", "", "", "", "", "", "")
    );
    assert_eq!(
        pattern_entries(&document),
        vec![
            entry(["1", "One", "A", "P", "http://x/1.epub", "1MB", "2001"]),
            entry(["2", "Two & more", "B", "Q", "http://x/2.epub", "2MB", "2002"]),
            entry(["3", "", "", "", "", "", ""]),
        ]
    );
}

#[test]
fn capture_does_not_cross_a_line_feed() {
    let broken = row("8", "two\nlines", "B", "Q", "l", "s", "d");
    assert_eq!(pattern_entries(&broken), Vec::<Entry>::new());
    let after = row("9", "t", "a", "p", "l", "s", "d");
    assert_eq!(pattern_entries(&format!("{}{}", broken, after)), vec![entry(["9", "t", "a", "p", "l", "s", "d"])]);
}

#[test]
fn captures_are_as_short_as_they_can_be() {
    let cut = "<tr><td><a href=\"https://yonde.itazuraneko.org/novelhtml/1.html\">A</a></td><td>x</td></tr>";
    let whole = row("2", "B", "b", "c", "l", "s", "d");
    assert_eq!(
        pattern_entries(&format!("{}{}", cut, whole)),
        vec![entry([
            "1",
            "A",
            "x</td></tr><tr><td><a href=\"https://yonde.itazuraneko.org/novelhtml/2.html\">B</a>",
            "b</td><td>c",
            "l",
            "s",
            "d",
        ])]
    );
}

#[test]
fn address_must_follow_the_template() {
    let other_host = "<tr><td><a href=\"https://mirror2.example.org/novelhtml/5.html\">A</a></td><td>a</td><td>p</td><td><a href=\"l\">s</a></td><td>d</td></tr>";
    let no_digits = "<tr><td><a href=\"https://yonde.itazuraneko.org/novelhtml/.html\">A</a></td><td>a</td><td>p</td><td><a href=\"l\">s</a></td><td>d</td></tr>";
    let letters = "<tr><td><a href=\"https://yonde.itazuraneko.org/novelhtml/12a.html\">A</a></td><td>a</td><td>p</td><td><a href=\"l\">s</a></td><td>d</td></tr>";
    let single_quotes = "<tr><td><a href='https://yonde.itazuraneko.org/novelhtml/5.html'>A</a></td><td>a</td><td>p</td><td><a href='l'>s</a></td><td>d</td></tr>";
    for document in [other_host, no_digits, letters, single_quotes] {
        assert_eq!(pattern_entries(document), Vec::<Entry>::new());
    }
}

#[test]
fn pattern_matches_as_the_regular_expression_does() {
    for document in sample_documents() {
        assert_eq!(pattern_entries(&document), by_regex(&document), "document: {:?}", document);
    }
}

#[test]
fn both_extractors_agree_on_pages_in_the_expected_form() {
    let rows = [
        row("42", "Sample Title", "Author A", "Publisher B", "http://x/42.epub", "1.2MB", "2020-01-01"),
        row("7", "Tom &amp; Jerry", "B &lt; C", "Q", "http://x/7.epub", "900KB", "2021-12-31"),
        row("123456", "\u{5c0f}\u{8aac}", "\u{4f5c}\u{8005}", "", "http://x/\u{672c}.epub", "", ""),
    ];
    for n in 0..=rows.len() {
        let document = format!("<html><body><table>{}</table></body></html>", rows[..n].concat());
        let by_pattern = pattern_entries(&document);
        assert_eq!(by_pattern.len(), n);
        assert_eq!(extract_entries(&document), Ok(by_pattern));
    }
}

#[test]
fn extractors_part_on_an_unexpected_address() {
    let document = "<table><tr><td><a href=\"https://mirror2.example.org/novelhtml/5.html\">A</a></td><td>a</td><td>p</td><td><a href=\"l\">s</a></td><td>d</td></tr></table>";
    assert_eq!(pattern_entries(document), Vec::<Entry>::new());
    assert_eq!(extract_entries(document), Ok(vec![entry(["25", "A", "a", "p", "l", "s", "d"])]));
}

#[test]
fn row_is_matched_where_it_starts() {
    let pattern = RowPattern::new();
    let document = format!("xx{}yy", row("42", "T &amp; U", "a", "p", "l", "s", "d"));
    let text = chars(&document);
    let end = text.len() - 2;
    assert_eq!(
        pattern.match_row(&text, 2),
        Some((entry(["42", "T &amp; U", "a", "p", "l", "s", "d"]), end))
    );
    assert_eq!(pattern.match_row(&text, 0), None);
    assert_eq!(pattern.match_row(&text, 3), None);
    assert_eq!(pattern.match_row(&text, text.len()), None);
    assert_eq!(pattern.match_row(&text, text.len() + 5), None);
}

#[test]
fn part_of_a_text() {
    let text = chars("hello world");
    assert!(occurs(&text, &chars("hello"), 0));
    assert!(occurs(&text, &chars("world"), 6));
    assert!(occurs(&text, &chars(""), 11));
    assert!(!occurs(&text, &chars(""), 12));
    assert!(!occurs(&text, &chars("world"), 7));
    assert!(!occurs(&text, &chars("worlds"), 6));
    assert!(!occurs(&text, &chars("hello world!"), 0));
    assert!(!occurs(&text, &chars("h"), usize::MAX));
    assert_eq!(text_between(&text, 6, 11), "world");
    assert_eq!(text_between(&text, 3, 3), "");
}

#[test]
fn end_of_a_capture() {
    let text = chars("abc</td>def</td>\nghi</td>");
    let closer = chars("</td>");
    assert_eq!(find_capture_end(&text, 0, &closer), Some(3));
    assert_eq!(find_capture_end(&text, 3, &closer), Some(3));
    assert_eq!(find_capture_end(&text, 4, &closer), Some(11));
    assert_eq!(find_capture_end(&text, 12, &closer), None);
    assert_eq!(find_capture_end(&text, 17, &closer), Some(20));
    assert_eq!(find_capture_end(&text, 21, &closer), None);
    assert_eq!(find_capture_end(&text, 99, &closer), None);
    assert_eq!(find_capture_end(&text, 25, &chars("")), Some(25));
}

#[test]
fn end_of_a_run_of_digits() {
    let text = chars("ab123c\u{0663}9");
    assert_eq!(find_digits_end(&text, 0), 0);
    assert_eq!(find_digits_end(&text, 2), 5);
    assert_eq!(find_digits_end(&text, 4), 5);
    assert_eq!(find_digits_end(&text, 6), 6);
    assert_eq!(find_digits_end(&text, 7), 8);
    assert_eq!(find_digits_end(&text, 8), 8);
    assert_eq!(find_digits_end(&text, 20), 20);
}

#[test]
fn captures_in_sequence() {
    let text = chars("one,two;three.rest");
    let closers = vec![chars(","), chars(";"), chars(".")];
    assert_eq!(
        find_captures(&text, 0, &closers),
        Some((vec!["one".to_string(), "two".to_string(), "three".to_string()], 14))
    );
    assert_eq!(find_captures(&text, 4, &closers), None);
    assert_eq!(find_captures(&text, 2, &Vec::new()), Some((Vec::new(), 2)));
}
