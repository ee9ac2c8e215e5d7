use mcp_smart_fetch::{
    CleaningConfig, Document, DocumentProcessor, ProcessingConfig, SmartFetchError,
};
use mcp_smart_fetch::config::{parse_switch, validate_llm_settings};
use mcp_smart_fetch::{ChatCompletionResponse, ChatMessage, Choice, ServerConfig};
use std::path::PathBuf;

#[test]
fn test_document_processor_creation() {
    let processing_config = ProcessingConfig::default();
    assert!(processing_config.supported_formats.contains(&"txt".to_string()));
}

#[test]
fn test_content_detection() {
    let txt_path = PathBuf::from("test.txt");
    let md_path = PathBuf::from("test.md");
    let unknown_path = PathBuf::from("test.unknown");

    assert_eq!(DocumentProcessor::detect_content_type(&txt_path).unwrap(), "text/plain");
    assert_eq!(DocumentProcessor::detect_content_type(&md_path).unwrap(), "text/markdown");
    assert_eq!(DocumentProcessor::detect_content_type(&unknown_path).unwrap(), "text/plain");
}

#[test]
fn test_document_metadata_extraction() {
    let content = "# 标题\n\n这是一篇测试文档。\n包含多个段落。\n\n## 第二标题\n更多内容。";

    let metadata = DocumentProcessor::extract_metadata(content);

    assert_eq!(metadata.title, Some("标题".to_string()));
    assert_eq!(metadata.line_count, 7);
}

#[test]
fn test_content_preprocessing() {
    let processor = DocumentProcessor::new(ProcessingConfig::default()).unwrap();

    let raw_content = "第一行\n\n\n第二行\r\n第三行\t制表符";
    let processed = processor.preprocess_content(raw_content).unwrap();

    assert!(!processed.contains("\r\n"));
    assert!(!processed.contains("\t"));
}

#[test]
fn test_content_chunking() {
    let processor = DocumentProcessor::new(ProcessingConfig::default()).unwrap();

    let long_text = "A".repeat(5000);
    let chunks = processor.chunk_content(&long_text).unwrap();

    assert!(!chunks.is_empty());
    assert!(chunks.len() > 1);

    let total_length: usize = chunks.iter().map(|c| c.len()).sum();
    assert_eq!(total_length, long_text.len());
}

#[test]
fn test_document_validation() {
    let processor = DocumentProcessor::new(ProcessingConfig::default()).unwrap();

    let empty_document = Document {
        path: PathBuf::new(),
        content: "".to_string(),
        content_type: "text/plain".to_string(),
        size_bytes: 0,
        metadata: Default::default(),
    };

    assert!(processor.validate_document(&empty_document).is_err());

    let valid_document = Document {
        path: PathBuf::from("test.txt"),
        content: "有效内容".to_string(),
        content_type: "text/plain".to_string(),
        size_bytes: 100,
        metadata: Default::default(),
    };

    assert!(processor.validate_document(&valid_document).is_ok());
}

#[test]
fn test_token_estimation() {
    let processor = DocumentProcessor::new(ProcessingConfig::default()).unwrap();

    let english_text = "This is a test sentence with multiple words.";
    let chinese_text = "这是一个包含多个汉字的测试句子。";

    let english_tokens = processor.estimate_tokens(english_text);
    let chinese_tokens = processor.estimate_tokens(chinese_text);

    assert!(english_tokens > 0);
    assert!(chinese_tokens > 0);
}

#[test]
fn test_cleaning_with_custom_patterns() {
    let mut config = ProcessingConfig::default();
    if let Some(cleaning) = &mut config.cleaning {
        cleaning.custom_patterns =
            Some(vec![r"\b\d{10,}\b".to_string(), r"\b[a-zA-Z]{20,}\b".to_string()]);
    }

    let processor = DocumentProcessor::new(config).unwrap();

    let test_content = r#"正常文本
12345678901234567890 # 长数字序列
abcdefghijklmnopqrstuvwxyzabcdefghijklmnopqrstuvwxyz # 长字母序列
更多正常文本"#;

    let cleaned = processor.preprocess_content(test_content).unwrap();

    assert!(!cleaned.contains("12345678901234567890"), "应该移除长数字序列");
    assert!(
        !cleaned.contains("abcdefghijklmnopqrstuvwxyzabcdefghijklmnopqrstuvwxyz"),
        "应该移除长字母序列"
    );
    assert!(cleaned.contains("正常文本"), "应该保留正常文本");
}

#[test]
fn test_cleaning_disabled() {
    let mut config = ProcessingConfig::default();
    if let Some(cleaning) = &mut config.cleaning {
        cleaning.enable_cleaning = Some(false);
    }

    let processor = DocumentProcessor::new(config).unwrap();

    let test_content = r#"这是正常文本
data:image/png;base64,iVBORw0KGgoAAAANSUhEUgAAAAEAAAABCAYAAAAfFcSJAAAADUlEQVR42mP8/5+hHgAHggJ/PchI7wAAAABJRU5ErkJggg==
<p>HTML标签</p>"#;

    let cleaned = processor.preprocess_content(test_content).unwrap();

    assert!(cleaned.contains("data:image/png;base64,"), "禁用清理时应保留base64图片");
    assert!(cleaned.contains("<p>"), "禁用清理时应保留HTML标签");
    assert!(cleaned.contains("这是正常文本"), "应该保留正常文本");
}

#[test]
fn cleaning_test_test_cleaning_stats() {
    let processor = DocumentProcessor::new(ProcessingConfig::default()).unwrap();

    let original = r#"这是一些文本
data:image/png;base64,iVBORw0KGgoAAAANSUhEUgAAAAEAAAABCAYAAAAfFcSJAAAADUlEQVR42mP8/5+hHgAHggJ/PchI7wAAAABJRU5ErkJggg==
更多文本"#;

    let cleaned = processor.preprocess_content(original).unwrap();

    assert!(cleaned.len() < original.len(), "清理后内容应该变短");
}

#[test]
fn test_document_cleaning_integration() {
    let config = ProcessingConfig {
        max_document_size_bytes: Some(10 * 1024 * 1024),
        chunk_size: Some(1000),
        supported_formats: vec!["txt".to_string(), "md".to_string(), "json".to_string()],
        enable_preprocessing: Some(true),
        cleaning: Some(CleaningConfig {
            enable_cleaning: Some(true),
            remove_base64_images: Some(true),
            remove_binary_data: Some(true),
            max_string_length: Some(500),
            remove_html_tags: Some(true),
            normalize_whitespace: Some(true),
            custom_patterns: None,
        }),
    };

    let test_content = r#"# 测试文档清理功能

这是正常的文本内容。

## 包含base64图片的内容
这里有一张图片：data:image/png;base64,iVBORw0KGgoAAAANSUhEUgAAAAEAAAABCAYAAAAfFcSJAAAADUlEQVR42mP8/5+hHgAHggJ/PchI7wAAAABJRU5ErkJggg==

## 包含HTML标签的内容
<p>这是一个<a href="https://example.com">链接</a>和<strong>粗体文本</strong></p>

## 包含二进制数据的内容
正常文本\x00\x01\x02更多内容

## 包含过长字符串的内容
这是一个非常非常长的字符串：" + &"a".repeat(600).as_str() + r#"

## 包含多余空格的内容
    多个    空格      和       制表符

文档结束。
"#;

    let processor = DocumentProcessor::new(config).unwrap();
    let cleaned_content = processor.preprocess_content(test_content).unwrap();

    assert!(!cleaned_content.contains("data:image/png;base64,"), "应该移除base64图片");
    assert!(!cleaned_content.contains("<p>"), "应该移除HTML标签");
    assert!(!cleaned_content.contains("<a href="), "应该移除HTML标签");
    assert!(!cleaned_content.contains("\x00"), "应该移除二进制数据");
    assert!(!cleaned_content.contains("\x01"), "应该移除二进制数据");
    assert!(!cleaned_content.contains("\x02"), "应该移除二进制数据");

    assert!(cleaned_content.contains("测试文档清理功能"), "应该保留正常文本");
    assert!(cleaned_content.contains("这是正常的文本内容"), "应该保留正常文本");
    assert!(cleaned_content.contains("链接"), "应该保留链接文本");
    assert!(cleaned_content.contains("粗体文本"), "应该保留粗体文本");

    let lines: Vec<&str> = cleaned_content.lines().collect();
    let spaces_lines: Vec<&str> = lines
        .iter()
        .filter(|line| line.contains("多个") && line.contains("空格"))
        .cloned()
        .collect();
    assert!(!spaces_lines.is_empty(), "应该有空格规范化的行");
}

fn plain_processor(chunk_size: usize) -> DocumentProcessor {
    DocumentProcessor::new(ProcessingConfig {
        max_document_size_bytes: None,
        chunk_size: Some(chunk_size),
        supported_formats: vec!["txt".to_string()],
        enable_preprocessing: Some(true),
        cleaning: None,
    })
    .unwrap()
}

#[test]
fn five_thousand_letters_make_five_chunks() {
    let processor = plain_processor(1000);
    let chunks = processor.chunk_content(&"A".repeat(5000)).unwrap();
    assert_eq!(chunks.len(), 5);
    for chunk in &chunks {
        assert_eq!(chunk.chars().count(), 1000);
    }
    let total: usize = chunks.iter().map(|c| c.len()).sum();
    assert_eq!(total, 5000);
}

#[test]
fn chunks_end_after_sentence_breaks() {
    let processor = plain_processor(10);
    assert_eq!(
        processor.chunk_content("Hello. World! How are you? Fine\nthanks a lot").unwrap(),
        vec!["Hello.", "World!", "How are y", "ou? Fine", "thanks a l", "ot"]
    );
}

#[test]
fn short_content_is_one_untrimmed_chunk() {
    let processor = plain_processor(10);
    assert_eq!(processor.chunk_content("  hi  ").unwrap(), vec!["  hi  "]);
    assert_eq!(processor.chunk_content("").unwrap(), vec![""]);
    assert_eq!(processor.chunk_content("0123456789").unwrap(), vec!["0123456789"]);
}

#[test]
fn whitespace_pieces_yield_no_chunk() {
    let processor = plain_processor(4);
    assert_eq!(processor.chunk_content("ab.     \n   cd").unwrap(), vec!["ab.", "c", "d"]);
}

#[test]
fn chunk_size_counts_characters() {
    let processor = plain_processor(3);
    assert_eq!(processor.chunk_content("一二三四五六七").unwrap(), vec!["一二三", "四五六", "七"]);
}

#[test]
fn chunks_and_trimmed_whitespace_make_up_the_content() {
    let processor = plain_processor(7);
    let content = "First one.  Second   one!   \n\n Third? yes    no maybe so";
    let chunks = processor.chunk_content(content).unwrap();
    let kept: usize = chunks.iter().map(|c| c.chars().count()).sum();
    let mut rebuilt = String::new();
    let mut rest = content;
    let mut trimmed = 0;
    for chunk in &chunks {
        let at = rest.find(chunk.as_str()).unwrap();
        assert!(rest[..at].chars().all(|c| c.is_whitespace()));
        trimmed += rest[..at].chars().count();
        rebuilt.push_str(&rest[..at]);
        rebuilt.push_str(chunk);
        rest = &rest[at + chunk.len()..];
    }
    assert!(rest.chars().all(|c| c.is_whitespace()));
    trimmed += rest.chars().count();
    rebuilt.push_str(rest);
    assert_eq!(rebuilt, content);
    assert_eq!(kept + trimmed, content.chars().count());
    for chunk in &chunks {
        assert!(chunk.chars().count() <= 7);
        assert!(!chunk.is_empty());
    }
}

#[test]
fn default_chunk_size_is_four_thousand() {
    let processor = DocumentProcessor::new(ProcessingConfig {
        max_document_size_bytes: None,
        chunk_size: None,
        supported_formats: Vec::new(),
        enable_preprocessing: None,
        cleaning: None,
    })
    .unwrap();
    let chunks = processor.chunk_content(&"b".repeat(4001)).unwrap();
    assert_eq!(chunks.len(), 2);
    assert_eq!(chunks[0].len(), 4000);
    assert_eq!(chunks[1].len(), 1);
    assert_eq!(processor.chunk_content(&"b".repeat(4000)).unwrap().len(), 1);
}

#[test]
fn three_blank_lines_become_one() {
    let processor = plain_processor(4000);
    assert_eq!(
        processor.preprocess_content("first paragraph\n\n\n\nsecond paragraph").unwrap(),
        "first paragraph\n\nsecond paragraph"
    );
    assert_eq!(processor.preprocess_content("a\nb").unwrap(), "a\n\nb");
}

#[test]
fn preprocessing_reflows_line_endings_tabs_and_bom() {
    let processor = plain_processor(4000);
    assert_eq!(processor.preprocess_content("\u{feff}a\tb\r\n \t \r\nc").unwrap(), "a    b\n\nc");
    assert_eq!(processor.preprocess_content("x\r\r\ny").unwrap(), "x\n\ny");
    assert_eq!(processor.preprocess_content("   \n\t\n").unwrap(), "");
}

#[test]
fn preprocessing_switched_off_is_the_identity() {
    let processor = DocumentProcessor::new(ProcessingConfig {
        enable_preprocessing: Some(false),
        ..ProcessingConfig::default()
    })
    .unwrap();
    let content = "\u{feff}<p>a\t\r\n\n\n\nb</p>";
    assert_eq!(processor.preprocess_content(content).unwrap(), content);
}

#[test]
fn preprocessing_cleans_before_it_reflows() {
    let processor = DocumentProcessor::new(ProcessingConfig::default()).unwrap();
    assert_eq!(
        processor.preprocess_content("a   b data:image/png;base64,QUJD\n\n\n\x00c").unwrap(),
        "a b\n\nc"
    );
}

#[test]
fn content_types_by_extension() {
    for (name, expected) in [
        ("a.json", "application/json"),
        ("a.yaml", "text/yaml"),
        ("a.yml", "text/yaml"),
        ("a.toml", "text/toml"),
        ("a.xml", "application/xml"),
        ("a.csv", "text/csv"),
        ("a.MD", "text/markdown"),
        ("a.Json", "application/json"),
        ("noextension", "text/plain"),
        ("a.rs", "text/plain"),
    ] {
        assert_eq!(
            DocumentProcessor::detect_content_type(&PathBuf::from(name)).unwrap(),
            expected
        );
    }
}

#[test]
fn metadata_counts_words_and_lines() {
    let metadata = DocumentProcessor::extract_metadata("one two\n  three\t four \r\n\nfive\n");
    assert_eq!(metadata.word_count, 5);
    assert_eq!(metadata.line_count, 4);
    assert_eq!(metadata.title, None);
    assert_eq!(metadata.author, None);
    let titled = DocumentProcessor::extract_metadata("intro\n###  Deep title  \n# other");
    assert_eq!(titled.title, Some("Deep title".to_string()));
    assert_eq!(titled.line_count, 3);
    let empty = DocumentProcessor::extract_metadata("");
    assert_eq!(empty.word_count, 0);
    assert_eq!(empty.line_count, 0);
}

#[test]
fn validation_names_each_failure() {
    let processor = DocumentProcessor::new(ProcessingConfig::default()).unwrap();
    let document = |name: &str, content: &str, size: usize| Document {
        path: PathBuf::from(name),
        content: content.to_string(),
        content_type: "text/plain".to_string(),
        size_bytes: size,
        metadata: Default::default(),
    };
    assert!(matches!(
        processor.validate_document(&document("a.txt", "", 0)),
        Err(SmartFetchError::ValidationError(_))
    ));
    assert!(matches!(
        processor.validate_document(&document("a.txt", "x", 10 * 1024 * 1024 + 1)),
        Err(SmartFetchError::ValidationError(_))
    ));
    assert!(processor.validate_document(&document("a.txt", "x", 10 * 1024 * 1024)).is_ok());
    match processor.validate_document(&document("a.PDF", "x", 1)) {
        Err(SmartFetchError::ValidationError(text)) => assert_eq!(text, "不支持的文件格式: PDF"),
        other => panic!("unexpected result: {:?}", other),
    }
    match processor.validate_document(&document("a.pdf", "", 1)) {
        Err(SmartFetchError::ValidationError(text)) => assert_eq!(text, "文档内容为空"),
        other => panic!("unexpected result: {:?}", other),
    }
    assert!(processor.validate_document(&document("a.MD", "x", 1)).is_ok());
    assert!(processor.validate_document(&document("noextension", "x", 1)).is_ok());
}

#[test]
fn token_estimate_is_a_quarter_of_the_characters() {
    let processor = plain_processor(10);
    assert_eq!(processor.estimate_tokens("This is a test sentence with multiple words."), 11);
    assert_eq!(processor.estimate_tokens("这是一个包含多个汉字的测试句子。"), 4);
    assert_eq!(processor.estimate_tokens("abc"), 0);
}

#[test]
fn document_stats_copy_the_figures() {
    let processor = plain_processor(10);
    let content = "# T\nsome words here";
    let document = DocumentProcessor::assemble_document(
        PathBuf::from("notes.md"),
        content.to_string(),
        content.len(),
    );
    assert_eq!(document.path, PathBuf::from("notes.md"));
    assert_eq!(document.content, content);
    assert_eq!(document.content_type, "text/markdown");
    assert_eq!(document.metadata.title, Some("T".to_string()));
    let stats = processor.get_document_stats(&document);
    assert_eq!(stats.size_bytes, content.len());
    assert_eq!(stats.word_count, 5);
    assert_eq!(stats.line_count, 2);
    assert_eq!(stats.content_type, "text/markdown");
    assert_eq!(stats.estimated_tokens, 4);
}

#[test]
fn documents_over_ten_mebibytes_are_refused() {
    let refused = DocumentProcessor::check_document_size(10 * 1024 * 1024 + 1);
    assert!(matches!(refused, Err(SmartFetchError::DocumentError(_))));
    assert_eq!(DocumentProcessor::check_document_size(10 * 1024 * 1024).unwrap(), 10 * 1024 * 1024);
    assert_eq!(DocumentProcessor::check_document_size(0).unwrap(), 0);
}

#[test]
fn error_messages_carry_their_label() {
    assert_eq!(
        SmartFetchError::ValidationError("文档内容为空".to_string()).message(),
        "验证错误: 文档内容为空"
    );
    assert_eq!(SmartFetchError::IoError("gone".to_string()).message(), "IO错误: gone");
    let error = SmartFetchError::from_regex(regex::Regex::new("(").unwrap_err());
    match error {
        SmartFetchError::RegexError(text) => assert!(text.starts_with("正则表达式错误: ")),
        other => panic!("unexpected error: {:?}", other),
    }
}

#[test]
fn default_processing_options() {
    let config = ProcessingConfig::default();
    assert_eq!(config.max_document_size_bytes, Some(10 * 1024 * 1024));
    assert_eq!(config.chunk_size, Some(4000));
    assert_eq!(config.supported_formats, vec!["txt".to_string(), "md".to_string()]);
    assert_eq!(config.enable_preprocessing, Some(true));
    assert_eq!(config.cleaning.unwrap().max_string_length, Some(1000));
}

#[test]
fn switches_read_their_settings() {
    for on in ["true", "1", "yes", "on", "TRUE", "Yes", "ON"] {
        assert!(parse_switch(on, Some(false)));
    }
    for off in ["false", "0", "no", "off", "False", "OFF"] {
        assert!(!parse_switch(off, Some(true)));
    }
    assert!(parse_switch("maybe", Some(true)));
    assert!(!parse_switch("maybe", Some(false)));
    assert!(!parse_switch("", None));
}

#[test]
fn every_kind_of_error_has_its_label() {
    let text = || "x".to_string();
    assert_eq!(SmartFetchError::ConfigError(text()).message(), "配置错误: x");
    assert_eq!(SmartFetchError::TemplateError(text()).message(), "模板错误: x");
    assert_eq!(SmartFetchError::LlmApiError(text()).message(), "LLM API错误: x");
    assert_eq!(SmartFetchError::NetworkError(text()).message(), "网络错误: x");
    assert_eq!(SmartFetchError::SerializationError(text()).message(), "序列化错误: x");
    assert_eq!(SmartFetchError::DocumentError(text()).message(), "文档处理错误: x");
    assert_eq!(SmartFetchError::TimeoutError(text()).message(), "超时错误: x");
    assert_eq!(SmartFetchError::Unknown(text()).message(), "未知错误: x");
    assert_eq!(SmartFetchError::RegexError(text()).message(), "正则表达式错误: x");
}

#[test]
fn lines_end_at_newlines_and_drop_one_carriage_return() {
    assert_eq!(DocumentProcessor::extract_metadata("a\r\nb\r").line_count, 2);
    assert_eq!(DocumentProcessor::extract_metadata("\n").line_count, 1);
    assert_eq!(DocumentProcessor::extract_metadata("\n\n").line_count, 2);
    assert_eq!(DocumentProcessor::extract_metadata("a\n\nb").line_count, 3);
    // a carriage return at the very end stays with its line
    let processor = plain_processor(4000);
    assert_eq!(processor.preprocess_content("#x\r\n#y\r").unwrap(), "#x\n\n#y\r");
}

#[test]
fn default_server_settings() {
    let server = ServerConfig::default();
    assert_eq!(server.host, "127.0.0.1");
    assert_eq!(server.port, 8080);
    assert_eq!(server.max_connections, Some(100));
    assert_eq!(server.request_timeout_seconds, Some(60));
}

#[test]
fn model_settings_are_checked_in_order() {
    assert!(validate_llm_settings("https://api", "gpt-4", Some(4000), true).is_ok());
    assert!(validate_llm_settings("https://api", "gpt-4", None, true).is_ok());
    let fault = |r: Result<(), SmartFetchError>| match r {
        Err(SmartFetchError::ConfigError(text)) => text,
        other => panic!("unexpected result: {:?}", other),
    };
    assert_eq!(fault(validate_llm_settings("", "", Some(0), false)), "LLM API端点不能为空");
    assert_eq!(fault(validate_llm_settings("e", "", Some(0), false)), "LLM模型名称不能为空");
    assert_eq!(fault(validate_llm_settings("e", "m", Some(0), false)), "最大token数必须大于0");
    assert_eq!(fault(validate_llm_settings("e", "m", Some(1), false)), "温度参数必须在0.0到2.0之间");
}

fn answer(contents: &[&str]) -> ChatCompletionResponse {
    ChatCompletionResponse {
        id: "id".to_string(),
        object: "chat.completion".to_string(),
        created: 0,
        model: "m".to_string(),
        choices: contents
            .iter()
            .map(|c| Choice {
                index: 0,
                message: ChatMessage { role: "assistant".to_string(), content: c.to_string() },
                finish_reason: None,
            })
            .collect(),
        usage: None,
    }
}

#[test]
fn the_first_choice_is_the_answer() {
    assert_eq!(answer(&["first", "second"]).first_content(true).unwrap(), "first");
    assert_eq!(answer(&["", "second"]).first_content(false).unwrap(), "");
    match answer(&["", "second"]).first_content(true) {
        Err(SmartFetchError::LlmApiError(text)) => assert_eq!(text, "API返回了空的内容"),
        other => panic!("unexpected result: {:?}", other),
    }
    match answer(&[]).first_content(false) {
        Err(SmartFetchError::LlmApiError(text)) => assert_eq!(text, "API返回了空的选择列表"),
        other => panic!("unexpected result: {:?}", other),
    }
}

#[test]
fn test_llm_config_validation() {
    let in_range = |temperature: Option<f64>| temperature.map_or(true, |t| (0.0..=2.0).contains(&t));
    let endpoint = "https://api.openai.com/v1/chat/completions";
    assert!(validate_llm_settings(endpoint, "gpt-4", Some(4000), in_range(Some(0.7))).is_ok());

    assert!(validate_llm_settings(endpoint, "", Some(4000), in_range(Some(0.7))).is_err());

    assert!(validate_llm_settings(endpoint, "gpt-4", Some(4000), in_range(Some(3.0))).is_err());
}
