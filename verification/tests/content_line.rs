use postgang::calendar::content_line::ContentLine;

#[test]
fn test_output_line_display_over_75() {
    let line = ContentLine::from(
        "123456789 123456789 123456789 123456789 123456789 123456789 123456789 123456789 ",
    );
    assert_eq!(line.to_string(), String::from("123456789 123456789 123456789 123456789 123456789 123456789 123456789 12345\r\n 6789 \r\n"))
}

#[test]
fn test_output_line_display_75() {
    let line = ContentLine::from(
        "123456789 123456789 123456789 123456789 123456789 123456789 123456789 12345",
    );
    assert_eq!(
        line.to_string(),
        String::from(
            "123456789 123456789 123456789 123456789 123456789 123456789 123456789 12345\r\n"
        )
    )
}

#[test]
fn test_output_line_display_wide_chars() {
    let line = ContentLine::from("A☣️☣️☣️☣️☣️☣️☣️☣️☣️☣️☣️☣️☣️☣️☣️☣️☣️☣️");
    assert_eq!(
        line.to_string(),
        String::from("A☣️☣️☣️☣️☣️☣️☣️☣️☣️☣️☣️☣️\r\n ☣️☣️☣️☣️☣️☣️\r\n")
    )
}

#[test]
fn test_output_line_display_newline() {
    let line = ContentLine::from("A\nnna");
    assert_eq!(line.to_string(), "A\\nnna\r\n");
}

#[test]
fn test_output_line_display_empty() {
    let line = ContentLine::from("");
    assert_eq!(line.to_string(), "");
}

fn unfold(text: &str) -> String {
    text.replace("\r\n ", "")
}

#[test]
fn line_of_75_octets_is_one_physical_line() {
    let text = "x".repeat(75);
    assert_eq!(ContentLine::from(text.as_str()).to_string(), format!("{text}\r\n"));
}

#[test]
fn line_of_one_octet_is_one_physical_line() {
    assert_eq!(ContentLine::from("a").to_string(), "a\r\n");
}

#[test]
fn line_of_76_octets_is_cut_at_75() {
    let text = "x".repeat(76);
    assert_eq!(
        ContentLine::from(text.as_str()).to_string(),
        format!("{}\r\n x\r\n", "x".repeat(75))
    );
}

#[test]
fn long_line_is_cut_at_75_and_then_every_74() {
    let text: String = (0..230u32)
        .map(|i| char::from_digit(i % 10, 10).unwrap())
        .collect();
    let folded = ContentLine::from(text.as_str()).to_string();
    let expected = format!(
        "{}\r\n {}\r\n {}\r\n {}\r\n",
        &text[..75],
        &text[75..149],
        &text[149..223],
        &text[223..]
    );
    assert_eq!(folded, expected);
}

#[test]
fn line_that_ends_at_a_cut_has_no_empty_continuation() {
    let text = "y".repeat(149);
    assert_eq!(
        ContentLine::from(text.as_str()).to_string(),
        format!("{}\r\n {}\r\n", "y".repeat(75), "y".repeat(74))
    );
}

#[test]
fn two_byte_characters_are_not_split() {
    // 38 characters of two octets each: octet 75 is the second half of one.
    let text = "ø".repeat(38);
    assert_eq!(
        ContentLine::from(text.as_str()).to_string(),
        format!("{}\r\n ø\r\n", "ø".repeat(37))
    );
}

#[test]
fn four_byte_characters_are_not_split() {
    // 19 characters of four octets each: the budget of 75 ends inside the last.
    let text = "𝄞".repeat(19);
    assert_eq!(
        ContentLine::from(text.as_str()).to_string(),
        format!("{}\r\n 𝄞\r\n", "𝄞".repeat(18))
    );
}

#[test]
fn every_physical_line_is_valid_text_of_at_most_75_octets() {
    let text = "A☣️ø𝄞z".repeat(40);
    let folded = ContentLine::from(text.as_str()).to_string();
    assert!(folded.ends_with("\r\n"));
    for line in folded[..folded.len() - 2].split("\r\n") {
        assert!(line.len() <= 75);
        assert!(!line.is_empty());
    }
}

#[test]
fn unfolding_gives_the_line_back() {
    let text = "SUMMARY:".to_string() + &"lørdag søndag ☣️ ".repeat(30);
    let folded = ContentLine::from(text.as_str()).to_string();
    assert_ne!(folded, format!("{text}\r\n"));
    assert_eq!(unfold(&folded), format!("{text}\r\n"));
}

#[test]
fn unfolding_gives_the_escaped_line_back() {
    let text = "first\r\n second\n".repeat(12);
    let escaped = text.replace('\n', "\\n");
    let folded = ContentLine::from(text.as_str()).to_string();
    assert_eq!(unfold(&folded), format!("{escaped}\r\n"));
}

#[test]
fn every_line_feed_is_escaped() {
    assert_eq!(ContentLine::from("\n\n").to_string(), "\\n\\n\r\n");
    assert_eq!(ContentLine::from("a\r\nb").to_string(), "a\r\\nb\r\n");
}

#[test]
fn escaping_counts_towards_the_length() {
    // 74 octets and a line feed: 76 octets once the line feed is escaped.
    let text = format!("{}\n", "x".repeat(74));
    assert_eq!(
        ContentLine::from(text.as_str()).to_string(),
        format!("{}\\\r\n n\r\n", "x".repeat(74))
    );
}

#[test]
fn content_line_from_string_holds_the_text() {
    let line = ContentLine::from(String::from("VERSION:2.0"));
    assert_eq!(line.0, "VERSION:2.0");
    assert_eq!(line.to_string(), "VERSION:2.0\r\n");
}
