//! Tests of the text sanitizer.

use realtime_bridge::sanitize::sanitize_text;

#[test]
fn test_sanitize_text_basic_symbols() {
    let input = "Hello **world**!";
    let output = sanitize_text(input);
    assert_eq!(output, "Hello world");
}

#[test]
fn test_sanitize_text_markdown_headers() {
    let input = "## Heading\nContent";
    let output = sanitize_text(input);
    assert_eq!(output, "Heading\nContent");
}

#[test]
fn test_sanitize_text_paragraphs() {
    let input = "Paragraph 1\n\nParagraph 2\n\nParagraph 3";
    let output = sanitize_text(input);
    assert!(output.contains("Paragraph 1"));
    assert!(output.contains("Paragraph 2"));
    assert!(output.contains("Paragraph 3"));
}

#[test]
fn test_sanitize_text_links() {
    let input = "Check [this link](https://example.com) out";
    let output = sanitize_text(input);
    assert_eq!(output, "Check this linkhttpsexample.com out");
}

#[test]
fn test_sanitize_text_emoji_and_symbols() {
    let input = "Hello 😊 #Topic @User";
    let output = sanitize_text(input);
    assert_eq!(output, "Hello Topic User");
}

#[test]
fn test_sanitize_text_chinese_punctuation() {
    let input = "示例：价格为￥99.99（约）";
    let output = sanitize_text(input);
    assert_eq!(output, "示例价格为99.99约");
}

#[test]
fn test_sanitize_text_preserve_common_punctuation() {
    let input = "条目A，条目B，条目C。";
    let output = sanitize_text(input);
    assert_eq!(output, "条目A,条目B,条目C。");
}

#[test]
fn test_sanitize_text_list_markers() {
    let input = "- Item 1\n- Item 2\n- Item 3";
    let output = sanitize_text(input);
    assert!(output.contains("Item 1"));
    assert!(output.contains("Item 2"));
    assert!(output.contains("Item 3"));
}

#[test]
fn test_sanitize_text_table() {
    let input = "| Name | Age |\n|------|-----|\n| Alice| 30  |\n| Bob  | 25  |";
    let output = sanitize_text(input);
    assert!(output.contains("Name"));
    assert!(output.contains("Age"));
    assert!(output.contains("Alice"));
    assert!(output.contains("30"));
    assert!(output.contains("Bob"));
    assert!(output.contains("25"));
}

#[test]
fn test_sanitize_text_multiple_spaces() {
    let input = "Hello    world    test";
    let output = sanitize_text(input);
    assert_eq!(output, "Hello world test");
}

#[test]
fn test_sanitize_text_excessive_newlines() {
    let input = "Line 1\n\n\n\n\nLine 2";
    let output = sanitize_text(input);
    assert_eq!(output, "Line 1\n\nLine 2");
}

#[test]
fn test_sanitize_text_windows_line_endings() {
    let input = "Line 1\r\nLine 2\r\nLine 3";
    let output = sanitize_text(input);
    assert_eq!(output, "Line 1\nLine 2\nLine 3");
}

#[test]
fn test_sanitize_text_unicode_normalization() {
    let input = "测试，全角。字符";
    let output = sanitize_text(input);
    assert_eq!(output, "测试,全角。字符");
}

#[test]
fn test_sanitize_text_decimal_numbers() {
    let input = "Price: $99.99 or 1,234.56";
    let output = sanitize_text(input);
    assert_eq!(output, "Price 99.99 or 1,234.56");
}

#[test]
fn test_sanitize_text_real_world_tts() {
    let input = "## 你好！欢迎使用 **AI 助手**\n\n这是一段包含 Markdown、符号（@#$%）和 Emoji 😊 的文本。\n\n- 列表项 1\n- 列表项 2";
    let output = sanitize_text(input);
    assert!(output.contains("你好"));
    assert!(output.contains("欢迎使用"));
    assert!(output.contains("AI"));
    assert!(output.contains("助手"));
    assert!(!output.contains("**"));
    assert!(!output.contains("##"));
    assert!(!output.contains("@"));
    assert!(!output.contains("#"));
    assert!(!output.contains("$"));
    assert!(!output.contains("%"));
    assert!(!output.contains("😊"));
    assert!(output.contains("列表项"));
}

#[test]
fn test_sanitize_text_multilingual_support() {
    let input = "中文：你好世界！ 日本語：こんにちは！ 한국어：안녕하세요！ العربية：مرحبا！ Русский：Привет！";
    let output = sanitize_text(input);
    assert!(output.contains("你好世界"));
    assert!(output.contains("こんにちは"));
    assert!(output.contains("안녕하세요"));
    assert!(output.contains("مرحبا"));
    assert!(output.contains("Привет"));
    assert!(!output.contains("！"));
}

#[test]
fn test_sanitize_text_unicode_categories() {
    let input = "English字母123数字٣٤٥阿拉伯数字";
    let output = sanitize_text(input);
    assert_eq!(output, "English字母123数字٣٤٥阿拉伯数字");
}

#[test]
fn test_sanitize_text_nfkc_normalization() {
    let input = "ＨＥＬＬＯｗｏｒｌｄ１２３";
    let output = sanitize_text(input);
    assert_eq!(output, "HELLOworld123");
}

#[test]
fn test_sanitize_text_cjk_punctuation() {
    let input = "中文，标点。日文、句読点。韓国語、句読点。";
    let output = sanitize_text(input);
    assert!(output.contains(","));
    assert!(output.contains("、"));
    assert!(output.contains("。"));
}

#[test]
fn test_sanitize_text_crlf_blank_lines_collapse() {
    let input = "Line 1\r\n\r\n\r\n\r\nLine 2";
    let output = sanitize_text(input);
    assert_eq!(output, "Line 1\n\nLine 2");
}

#[test]
fn test_sanitize_text_only_symbols_yields_empty() {
    let input = "@#$%^&*()!";
    let output = sanitize_text(input);
    assert_eq!(output, "");
}

#[test]
fn test_sanitize_text_idempotent_on_output() {
    let inputs = [
        "Hello **world**!",
        "Line 1\r\n\r\n\r\n\r\nLine 2",
        "ＨＥＬＬＯｗｏｒｌｄ１２３",
        "示例：价格为￥99.99（约）",
        "  spaced   out\t\ttext  ",
    ];
    for input in inputs {
        let once = sanitize_text(input);
        let twice = sanitize_text(&once);
        assert_eq!(twice, once);
    }
}

#[test]
fn test_sanitize_text_trims_ends() {
    let input = "  \t hello world \n\n ";
    let output = sanitize_text(input);
    assert_eq!(output, "hello world");
}

#[test]
fn test_sanitize_text_unifies_exotic_whitespace() {
    let input = "a\u{00A0}b\u{2003}c";
    let output = sanitize_text(input);
    assert_eq!(output, "a b c");
}
