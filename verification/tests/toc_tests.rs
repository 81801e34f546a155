use yatm_v2::toc::{make_markdown_table_of_contents, TocOptions};

#[test]
fn test_make_markdown_table_of_contents() {
    let content = r#"
# Title
## Subtitle
### Subsubtitle
        "#
    .to_string();
    let result = make_markdown_table_of_contents(&content, None).unwrap();

    assert_eq!(
        result,
        r#"- [Title](#title)
  - [Subtitle](#subtitle)
    - [Subsubtitle](#subsubtitle)
"#
        .to_string()
    );
}

#[test]
fn test_handles_special_characters() {
    let content = r#"
# Title with special characters: `&`
        "#
    .to_string();
    let result = make_markdown_table_of_contents(&content, None).unwrap();

    assert_eq!(
        result,
        "- [Title with special characters: `&`](#title-with-special-characters-)\n".to_string()
    );
}

#[test]
fn test_handles_min_depth() {
    let content = r#"
# Title
## Subtitle
### Subsubtitle
        "#
    .to_string();
    let result = make_markdown_table_of_contents(
        &content,
        Some(&TocOptions {
            min_depth: Some(2),
            max_depth: None,
            toc_title: None,
            toc_title_level: None,
            spaces_per_indent: Some(2),
        }),
    )
    .unwrap();

    assert_eq!(
        result,
        r#"- [Subtitle](#subtitle)
  - [Subsubtitle](#subsubtitle)
"#
        .to_string()
    );
}

#[test]
fn test_handles_max_depth() {
    let content = r#"
# Title
## Subtitle
### Subsubtitle
        "#
    .to_string();
    let result = make_markdown_table_of_contents(
        &content,
        Some(&TocOptions {
            min_depth: None,
            max_depth: Some(1),
            toc_title: None,
            toc_title_level: None,
            spaces_per_indent: Some(2),
        }),
    )
    .unwrap();

    assert_eq!(
        result,
        r#"- [Title](#title)
"#
        .to_string()
    );
}

#[test]
fn test_handles_min_and_max_depth() {
    let content = r#"
# Title
## Subtitle
### Subsubtitle
        "#
    .to_string();
    let result = make_markdown_table_of_contents(
        &content,
        Some(&TocOptions {
            min_depth: Some(2),
            max_depth: Some(2),
            toc_title: None,
            toc_title_level: None,
            spaces_per_indent: Some(2),
        }),
    )
    .unwrap();

    assert_eq!(
        result,
        r#"- [Subtitle](#subtitle)
"#
        .to_string()
    );
}

#[test]
fn test_handles_toc_title_with_level() {
    let content = r#"
# Title
## Subtitle
### Subsubtitle
        "#
    .to_string();
    let result = make_markdown_table_of_contents(
        &content,
        Some(&TocOptions {
            min_depth: None,
            max_depth: None,
            toc_title: Some("Table of Contents".to_string()),
            toc_title_level: None,
            spaces_per_indent: Some(2),
        }),
    )
    .unwrap();

    assert_eq!(
        result,
        r#"Table of Contents

- [Title](#title)
  - [Subtitle](#subtitle)
    - [Subsubtitle](#subsubtitle)
"#
        .to_string()
    );
}

#[test]
fn test_handles_toc_title_without_level() {
    let content = r#"
# Title
## Subtitle
### Subsubtitle
        "#
    .to_string();
    let result = make_markdown_table_of_contents(
        &content,
        Some(&TocOptions {
            min_depth: None,
            max_depth: None,
            toc_title: Some("Table of Contents".to_string()),
            toc_title_level: None,
            spaces_per_indent: Some(2),
        }),
    )
    .unwrap();

    assert_eq!(
        result,
        r#"Table of Contents

- [Title](#title)
  - [Subtitle](#subtitle)
    - [Subsubtitle](#subsubtitle)
"#
        .to_string()
    );
}

#[test]
fn test_handles_toc_title_level() {
    let content = r#"
# Title
## Subtitle
### Subsubtitle
        "#
    .to_string();
    let result = make_markdown_table_of_contents(
        &content,
        Some(&TocOptions {
            min_depth: None,
            max_depth: None,
            toc_title: None,
            toc_title_level: None,
            spaces_per_indent: Some(4),
        }),
    )
    .unwrap();
    assert_eq!(
        result,
        r#"- [Title](#title)
    - [Subtitle](#subtitle)
        - [Subsubtitle](#subsubtitle)
"#
        .to_string()
    );
}

#[test]
fn test_handles_code_blocks() {
    let content = r#"
# Title
## Subtitle
```bash
# a comment
```
### Subsubtitle
        "#
    .to_string();
    let result = make_markdown_table_of_contents(&content, None).unwrap();
    assert_eq!(
        result,
        r#"- [Title](#title)
  - [Subtitle](#subtitle)
    - [Subsubtitle](#subsubtitle)
"#
        .to_string()
    );
}
