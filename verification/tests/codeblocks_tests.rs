use bridge_core::codeblocks::{
    parse_code_blocks, render_blocks, CodeBlock, CodeBlockAction, Language,
};

#[test]
fn execute_annotation_extracts_the_block() {
    let text = "> execute\n```python\nprint(\"hi\")\n```\n";
    let blocks = parse_code_blocks(text);
    assert_eq!(blocks.len(), 1);
    assert_eq!(blocks[0].action, CodeBlockAction::Execute);
    assert_eq!(blocks[0].language, Language::Python);
    assert_eq!(blocks[0].code, "print(\"hi\")");
    assert_eq!(blocks[0].filename, None);
}

#[test]
fn save_annotation_carries_the_filename() {
    let text = "> save: `script.sh`\n```sh\necho ok\n```\n";
    let blocks = parse_code_blocks(text);
    assert_eq!(blocks.len(), 1);
    assert_eq!(blocks[0].action, CodeBlockAction::Save);
    assert_eq!(blocks[0].filename.as_deref(), Some("script.sh"));
    assert_eq!(blocks[0].language, Language::Shell);
    assert_eq!(blocks[0].code, "echo ok");
}

#[test]
fn unannotated_blocks_are_ignored() {
    let text = "some prose\n```python\nprint(1)\n```\nmore prose\n";
    assert!(parse_code_blocks(text).is_empty());
}

#[test]
fn annotation_is_case_insensitive_and_survives_interleaved_text() {
    let text = "> EXECUTE\n\nsome words in between\n\n```sh\nls\n```\n";
    let blocks = parse_code_blocks(text);
    assert_eq!(blocks.len(), 1);
    assert_eq!(blocks[0].action, CodeBlockAction::Execute);
    assert_eq!(blocks[0].language, Language::Shell);
}

#[test]
fn other_blockquotes_do_not_disarm() {
    let text = "> execute\n> just a quote\n```sh\npwd\n```\n";
    let blocks = parse_code_blocks(text);
    assert_eq!(blocks.len(), 1);
}

#[test]
fn languages_map_from_info_strings() {
    let cases = [
        ("sh", Language::Shell),
        ("shell", Language::Shell),
        ("SHELL", Language::Shell),
        ("python", Language::Python),
        ("md", Language::Markdown),
        ("markdown", Language::Markdown),
        ("", Language::Unknown),
        ("rust", Language::Other),
    ];
    for (token, wanted) in cases {
        let text = format!("> execute\n```{token}\nx\n```\n");
        let blocks = parse_code_blocks(&text);
        assert_eq!(blocks.len(), 1);
        assert_eq!(blocks[0].language, wanted);
    }
}

#[test]
fn multiline_code_is_kept_verbatim() {
    let text = "> execute\n```python\na = 1\n\nb = 2\n```\n";
    let blocks = parse_code_blocks(text);
    assert_eq!(blocks[0].code, "a = 1\n\nb = 2");
}

#[test]
fn rendered_blocks_parse_back() {
    let blocks = vec![
        CodeBlock {
            code: "print(\"hi\")".to_string(),
            language: Language::Python,
            filename: None,
            action: CodeBlockAction::Execute,
        },
        CodeBlock {
            code: "echo hello".to_string(),
            language: Language::Shell,
            filename: Some("run.sh".to_string()),
            action: CodeBlockAction::Save,
        },
    ];
    let text = render_blocks(&blocks);
    let parsed = parse_code_blocks(&text);
    assert_eq!(parsed.len(), blocks.len());
    for (p, b) in parsed.iter().zip(blocks.iter()) {
        assert_eq!(p.code, b.code);
        assert_eq!(p.language, b.language);
        assert_eq!(p.filename, b.filename);
        assert_eq!(p.action, b.action);
    }
}

#[test]
fn unclosed_fence_still_yields_the_block() {
    let text = "> execute\n```sh\nls -la";
    let blocks = parse_code_blocks(text);
    assert_eq!(blocks.len(), 1);
    assert_eq!(blocks[0].code, "ls -la");
}
