use rustcrew::orchestration::knowledge::KnowledgeBase;
use rustcrew::orchestration::llm::{clean_json_reply, GeminiAdapter, OpenAiAdapter};
use rustcrew::text::{contains_str, decimal_of_i64, join_strings, strip_and_trim};

#[test]
fn substring_search() {
    assert!(contains_str("hello world", "lo w"));
    assert!(contains_str("abc", ""));
    assert!(!contains_str("abc", "abcd"));
    assert!(contains_str("ünïcödé", "ïcö"));
}

#[test]
fn joining() {
    let parts = vec!["a".to_string(), "b".to_string(), "c".to_string()];
    assert_eq!(join_strings(&parts, ", "), "a, b, c");
    assert_eq!(join_strings(&vec![], "x"), "");
}

#[test]
fn decimals() {
    assert_eq!(decimal_of_i64(0), "0");
    assert_eq!(decimal_of_i64(1234), "1234");
    assert_eq!(decimal_of_i64(-56), "-56");
    assert_eq!(decimal_of_i64(i64::MIN), i64::MIN.to_string());
    assert_eq!(decimal_of_i64(i64::MAX), i64::MAX.to_string());
}

#[test]
fn chunking_text() {
    assert_eq!(KnowledgeBase::<()>::chunk_text("abcdefg", 3), vec!["abc", "def", "g"]);
    assert_eq!(KnowledgeBase::<()>::chunk_text("abcdef", 3), vec!["abc", "def"]);
    assert!(KnowledgeBase::<()>::chunk_text("", 4).is_empty());
    assert_eq!(KnowledgeBase::<()>::chunk_text("éàü", 2), vec!["éà", "ü"]);
    let kb: KnowledgeBase<()> = KnowledgeBase::new("docs");
    assert_eq!(kb.name, "docs");
    assert!(kb.embedder.is_none());
}

#[test]
fn cleaning_model_replies() {
    assert_eq!(clean_json_reply("```json\n[{\"a\":1}]\n```"), "[{\"a\":1}]");
    assert_eq!(clean_json_reply("  {}  "), "{}");
    assert_eq!(clean_json_reply("```json```json x``````"), "x");
    assert_eq!(clean_json_reply("plain"), "plain");
    assert_eq!(clean_json_reply("\u{3000}\t[]\n"), "[]");
    let raw = "```json\n {\"tool_name\": \"x\"} \n```";
    assert_eq!(
        clean_json_reply(raw),
        raw.trim_start_matches("```json").trim_end_matches("```").trim()
    );
}

#[test]
fn adapters_reply_with_their_mock() {
    let o = OpenAiAdapter::new("k".to_string(), "m".to_string());
    assert_eq!(o.reply("hi"), Ok("Mocked response from OpenAI".to_string()));
    let g = GeminiAdapter::new("k".to_string(), "m".to_string());
    assert_eq!(g.reply("hi"), Ok("Mocked response from Gemini".to_string()));
}

#[test]
fn chunks_rebuild_the_text() {
    let text = "the quick brown fox jumps";
    for size in 1..8 {
        let chunks = KnowledgeBase::<()>::chunk_text(text, size);
        assert_eq!(chunks.concat(), text);
        let last = chunks.len() - 1;
        for (i, c) in chunks.iter().enumerate() {
            let n = c.chars().count();
            assert!(n >= 1 && n <= size);
            if i < last {
                assert_eq!(n, size);
            }
        }
    }
}

#[test]
fn strip_and_trim_removes_fences_and_white_space() {
    let chars = |s: &str| s.chars().collect::<Vec<char>>();
    let text = chars("```json```json  {\"a\": 1} \n``````");
    assert_eq!(strip_and_trim(&text, &chars("```json"), &chars("```")), "{\"a\": 1}");
    assert_eq!(strip_and_trim(&chars("  x  "), &chars(""), &chars("")), "x");
}
