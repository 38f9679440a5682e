//! The frontmatter of a skill file.
use cadmus::runtime::skills;
use cadmus::runtime::skills::frontmatter::{
    lines, parse_frontmatter, split_frontmatter, validate, Frontmatter, FrontmatterIssue,
};
use cadmus::SkillSummary;

/// Stringified issues, so assertions can match on the exact text.
fn parse(text: &str) -> (Frontmatter, Vec<String>) {
    let (frontmatter, issues) = parse_frontmatter(text);
    let shown = issues.iter().map(|issue| issue.to_text()).collect();
    (frontmatter, shown)
}

fn frontmatter(pairs: &[(&str, &str)]) -> Frontmatter {
    let mut out = Frontmatter::new();
    for (key, value) in pairs {
        out.insert(key, value);
    }
    out
}

#[test]
fn split_tolerates_crlf_checkouts() {
    let (frontmatter, body) =
        split_frontmatter("---\r\nname: x\r\n---\r\nbody\r\n").expect("valid frontmatter");
    assert_eq!(frontmatter, "name: x");
    assert_eq!(body, "body\n");
}

#[test]
fn split_distinguishes_open_and_close_failures() {
    assert_eq!(
        split_frontmatter("name: x\n").unwrap_err(),
        "missing YAML frontmatter (must start with ---)"
    );
    assert_eq!(
        split_frontmatter("---\nname: x\n").unwrap_err(),
        "frontmatter is not closed with ---"
    );
}

#[test]
fn plain_scalars_parse() {
    let (frontmatter, issues) = parse("name: pr-preflight\ndescription: short\n");
    assert!(issues.is_empty());
    assert_eq!(frontmatter.get("description"), Some("short"));
}

#[test]
fn unquoted_colon_space_is_rejected() {
    let (_, issues) = parse("description: layer on top: diff self-review\n");
    assert_eq!(issues.len(), 1);
    assert!(issues[0].contains("wrap the value in double quotes"));
}

#[test]
fn quoted_colon_space_is_accepted() {
    let (frontmatter, issues) = parse("description: \"layer on top: diff\"\n");
    assert!(issues.is_empty());
    assert_eq!(frontmatter.get("description"), Some("layer on top: diff"));
}

#[test]
fn unterminated_quote_and_indicators_are_rejected() {
    let (_, issues) = parse("description: \"never closed\n");
    assert_eq!(issues.len(), 1);
    let (_, issues) = parse("description: >- folded\n");
    assert_eq!(issues.len(), 1);
}

#[test]
fn trailing_colon_plain_scalar_is_rejected() {
    let (_, issues) = parse_frontmatter("name: foo:\n");
    assert_eq!(
        issues,
        vec![FrontmatterIssue::PlainScalarColon("name".into())]
    );
}

#[test]
fn comment_and_empty_lines_are_skipped() {
    let (frontmatter, issues) = parse("# a comment\n\nname: x\n");
    assert!(issues.is_empty());
    assert_eq!(frontmatter.get("name"), Some("x"));
}

#[test]
fn a_bare_quote_char_is_not_a_terminated_scalar() {
    let (_, issues) = parse_frontmatter("name: \"\n");
    assert_eq!(
        issues,
        vec![FrontmatterIssue::UnterminatedQuote("name".into())]
    );
}

#[test]
fn bracket_indicators_are_rejected_too() {
    let (_, issues) = parse_frontmatter("name: [flow-seq]\n");
    assert_eq!(
        issues,
        vec![FrontmatterIssue::IndicatorStart("name".into())]
    );
}

#[test]
fn issue_messages_are_pinned_verbatim() {
    let (_, issues) = parse("description: layer on top: diff\n");
    assert_eq!(
        issues[0],
        "plain scalar for \"description\" contains ':' — strict YAML hosts reject this; wrap the value in double quotes"
    );
    let (_, issues) = parse("not a pair\n");
    assert_eq!(issues[0], "unparseable frontmatter line: \"not a pair\"");
    let (_, issues) = parse("name: \"open\n");
    assert_eq!(issues[0], "unterminated quoted scalar for \"name\"");
    let (_, issues) = parse("name: > folded\n");
    assert_eq!(
        issues[0],
        "value for \"name\" starts with a YAML indicator — only single-line plain or quoted scalars are supported in SKILL.md frontmatter"
    );
}

#[test]
fn a_valid_skill_validates() {
    let (name, description) = validate(
        &frontmatter(&[("name", "pr-preflight"), ("description", "review a PR")]),
        "pr-preflight",
    )
    .expect("valid");
    assert_eq!(name, "pr-preflight");
    assert_eq!(description, "review a PR");
}

#[test]
fn name_and_description_are_required() {
    let err = validate(&frontmatter(&[("description", "d")]), "x").unwrap_err();
    assert_eq!(err, "frontmatter requires `name`");
    let err = validate(&frontmatter(&[("name", "x")]), "x").unwrap_err();
    assert_eq!(err, "frontmatter requires `description`");
}

#[test]
fn the_name_charset_is_the_spec_subset() {
    for bad in ["Foo", "a_b", "a b", "-lead", "trail-", "double--dash", ""] {
        let err = validate(&frontmatter(&[("name", bad), ("description", "d")]), bad).unwrap_err();
        assert!(err.contains("1-64 chars"), "{bad:?}: {err}");
    }
    // 65 chars exceeds the cap; 64 is the last legal length.
    let long = "a".repeat(65);
    let err = validate(
        &frontmatter(&[("name", &long), ("description", "d")]),
        &long,
    )
    .unwrap_err();
    assert!(err.contains("1-64 chars"));
    let max = "a".repeat(64);
    validate(&frontmatter(&[("name", &max), ("description", "d")]), &max).expect("64 is legal");
}

#[test]
fn the_name_must_equal_the_directory_name() {
    let err = validate(
        &frontmatter(&[("name", "x"), ("description", "d")]),
        "other",
    )
    .unwrap_err();
    assert_eq!(err, "name \"x\" must equal directory name \"other\"");
}

#[test]
fn the_description_length_window_is_enforced() {
    let err = validate(&frontmatter(&[("name", "x"), ("description", "")]), "x").unwrap_err();
    assert_eq!(err, "description must be 1..1024 chars (got 0)");
    let over = "d".repeat(1025);
    let err = validate(&frontmatter(&[("name", "x"), ("description", &over)]), "x").unwrap_err();
    assert_eq!(err, "description must be 1..1024 chars (got 1025)");
    let max = "d".repeat(1024);
    validate(&frontmatter(&[("name", "x"), ("description", &max)]), "x").expect("1024 is legal");
}

#[test]
fn the_wrapper_rehomes_the_validated_pair() {
    let frontmatter = frontmatter(&[
        ("name", "pr-preflight"),
        ("description", "review a PR"),
    ]);
    let summary = skills::validate(&frontmatter, "pr-preflight").expect("valid");
    assert_eq!(
        summary,
        SkillSummary {
            name: "pr-preflight".into(),
            description: "review a PR".into(),
        }
    );
    // The shared validator's verdict passes through unchanged.
    skills::validate(&frontmatter, "other-dir").unwrap_err();
}

#[test]
fn a_split_file_can_be_put_together_again() {
    let file = "---\nname: x\nnote: a\n---\nbody\n---\nmore\n";
    let (head, body) = split_frontmatter(file).expect("valid frontmatter");
    // The first closing fence counts.
    assert_eq!(head, "name: x\nnote: a");
    assert_eq!(format!("---\n{head}\n---\n{body}"), file);
}

#[test]
fn an_empty_frontmatter_needs_its_own_line() {
    // The closing fence starts with a line feed of its own.
    assert_eq!(
        split_frontmatter("---\n---\nbody").unwrap_err(),
        "frontmatter is not closed with ---"
    );
    let (head, body) = split_frontmatter("---\n\n---\nbody").expect("valid frontmatter");
    assert_eq!((head.as_str(), body.as_str()), ("", "body"));
}

#[test]
fn lines_end_at_either_line_ending() {
    assert_eq!(lines("a\r\nb\n\nc\r"), ["a", "b", "", "c\r"]);
    assert_eq!(lines("a\n"), ["a"]);
    assert!(lines("").is_empty());
}

#[test]
fn later_pairs_replace_earlier_ones_and_values_lose_their_quotes() {
    let (frontmatter, issues) = parse("name: one\nname: ''two\"'\nkey : 'v'\nempty:\n");
    assert!(issues.is_empty());
    assert_eq!(frontmatter.get("name"), Some("two"));
    assert_eq!(frontmatter.get("key"), Some("v"));
    assert_eq!(frontmatter.get("empty"), Some(""));
    assert_eq!(frontmatter.get("absent"), None);
}

#[test]
fn every_issue_is_reported_in_one_pass() {
    let (frontmatter, issues) = parse_frontmatter("one\na: 'x\nb: c: d\ne: &f\ng: h\n");
    assert_eq!(
        issues,
        vec![
            FrontmatterIssue::UnparseableLine("one".into()),
            FrontmatterIssue::UnterminatedQuote("a".into()),
            FrontmatterIssue::PlainScalarColon("b".into()),
            FrontmatterIssue::IndicatorStart("e".into()),
        ]
    );
    assert_eq!(frontmatter.get("g"), Some("h"));
}

#[test]
fn descriptions_are_measured_in_characters() {
    let wide = "é".repeat(1024);
    validate(&frontmatter(&[("name", "x"), ("description", &wide)]), "x").expect("1024 characters");
}

#[test]
fn two_texts_on_lines_of_their_own_add_up() {
    let a = "name: one\nkept: a\nno colon here\n";
    let b = "name: two\nbroken: \"open\nkept: x: y";
    let (first, first_issues) = parse_frontmatter(a);
    let (second, second_issues) = parse_frontmatter(b);
    let (both, issues) = parse_frontmatter(&format!("{a}\n{b}"));
    assert_eq!(first.get("name"), Some("one"));
    assert_eq!(second.get("name"), Some("two"));
    assert_eq!(both.get("name"), Some("two"));
    assert_eq!(both.get("kept"), Some("a"), "an issue changes no entry");
    assert_eq!(both.get("broken"), None);
    let mut expected = first_issues;
    expected.extend(second_issues);
    assert_eq!(issues, expected);
    assert_eq!(issues.len(), 3);
}
