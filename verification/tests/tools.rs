use benito_core::tool::{FFITool, ToolCall, ToolCallError, ToolResult};
use serde_json::Value;

fn tool(name: &str, on_tool_use: Option<u16>) -> FFITool<u16, u32, u64> {
    FFITool {
        name: name.to_string(),
        description: "does things".to_string(),
        parameters_schema: Value::Null,
        execute_fn: 1,
        user_data: 2,
        on_tool_use,
    }
}

fn document(text: &str) -> Value {
    serde_json::from_str(text).unwrap()
}

#[test]
fn null_reply_is_an_error() {
    assert_eq!(
        ToolResult::from_reply(None),
        ToolResult { content: "Tool execution returned null".to_string(), is_error: true }
    );
}

#[test]
fn json_reply_is_taken_apart() {
    assert_eq!(
        ToolResult::from_reply(Some(br#"{"content": "done", "is_error": false}"#)),
        ToolResult::success("done")
    );
    assert_eq!(
        ToolResult::from_reply(Some(br#"{"content": "broken", "is_error": true}"#)),
        ToolResult::error("broken")
    );
    assert_eq!(
        ToolResult::from_reply(Some(br#"{"content": "line\nbreak"}"#)),
        ToolResult::success("line\nbreak")
    );
}

#[test]
fn reply_without_content_is_its_own_content() {
    let text = r#"{"is_error": true}"#;
    assert_eq!(ToolResult::from_reply(Some(text.as_bytes())), ToolResult::error(text));
    let text = r#"{"content": 7, "is_error": "yes"}"#;
    assert_eq!(ToolResult::from_reply(Some(text.as_bytes())), ToolResult::success(text));
    assert_eq!(ToolResult::from_text("[1, 2]"), ToolResult::success("[1, 2]"));
    assert_eq!(ToolResult::from_text("\"content\""), ToolResult::success("\"content\""));
}

#[test]
fn plain_reply_is_its_own_content() {
    assert_eq!(ToolResult::from_reply(Some(b"just text")), ToolResult::success("just text"));
    assert_eq!(ToolResult::from_reply(Some(b"")), ToolResult::success(""));
}

#[test]
fn reply_that_is_no_text_is_replaced() {
    assert_eq!(
        ToolResult::from_reply(Some(&[0xff, 0xfe])),
        ToolResult::success("Tool execution failed")
    );
}

#[test]
fn members_decide_the_result() {
    assert_eq!(ToolResult::from_members("raw", None, None), ToolResult::success("raw"));
    assert_eq!(ToolResult::from_members("raw", None, Some(true)), ToolResult::error("raw"));
    assert_eq!(ToolResult::from_members("raw", Some("c"), Some(false)), ToolResult::success("c"));
    assert_eq!(ToolResult::from_members("raw", Some("c"), Some(true)), ToolResult::error("c"));
}

#[test]
fn tools_tell_name_and_description() {
    let t = tool("shot", None);
    assert_eq!(t.name(), "shot");
    assert_eq!(t.description(), "does things");
    assert_eq!(t.parameters_schema(), Value::Null);
    let schema = document(r#"{"type": "object"}"#);
    let t = FFITool { parameters_schema: schema.clone(), ..tool("shot", None) };
    assert_eq!(t.parameters_schema(), schema);
}

#[test]
fn call_carries_name_and_arguments() {
    let args = document(r#"{"path": "/tmp", "n": 3}"#);
    assert_eq!(
        tool("list", None).call(&args),
        Ok(ToolCall { name: "list".to_string(), args: r#"{"n":3,"path":"/tmp"}"#.to_string() })
    );
    assert_eq!(
        tool("list", None).call(&document("\"a\\u0000b\"")),
        Ok(ToolCall { name: "list".to_string(), args: "\"a\\u0000b\"".to_string() })
    );
}

#[test]
fn call_needs_c_strings() {
    assert_eq!(tool("a\0b", None).call(&Value::Null), Err(ToolCallError::Nul(1)));
    assert_eq!(tool("\u{fc}x\0\0", None).call(&Value::Null), Err(ToolCallError::Nul(3)));
    assert_eq!(tool("a", None).call_of(Some("xyz\0")), Err(ToolCallError::Nul(3)));
    assert_eq!(tool("a\0", None).call_of(Some("xyz\0")), Err(ToolCallError::Nul(1)));
    assert_eq!(tool("a", None).call_of(None), Err(ToolCallError::Arguments));
}

#[test]
fn announcement_needs_a_listener() {
    let args = document("[true]");
    assert_eq!(tool("list", None).announcement(&args), None);
    assert_eq!(
        tool("list", Some(4)).announcement(&args),
        Some(ToolCall { name: "list".to_string(), args: "[true]".to_string() })
    );
    assert_eq!(tool("a\0b", Some(4)).announcement(&args), None);
    assert_eq!(
        tool("list", Some(4)).announcement_of(None),
        Some(ToolCall { name: "list".to_string(), args: String::new() })
    );
    assert_eq!(tool("list", Some(4)).announcement_of(Some("x\0")), None);
}

fn words(call: &ToolCall) -> String {
    format!("{} {}", call.name, call.args)
}

#[test]
fn execution_announces_and_runs() {
    let mut handed = String::new();
    let result = tool("list", Some(4)).execute(
        &document("[1]"),
        |callback: u16, data: u32, call: &ToolCall| format!("{} {} {}", callback, data, words(call)),
        |function: u64, data: u32, call: &ToolCall, told: Option<String>| {
            handed = format!("{} {} {} after {:?}", function, data, words(call), told);
            Some(br#"{"content": "done", "is_error": true}"#.to_vec())
        },
    );
    assert_eq!(result, Ok(ToolResult::error("done")));
    assert_eq!(handed, "1 2 list [1] after Some(\"4 2 list [1]\")");
}

#[test]
fn execution_without_listener_or_reply() {
    let result = tool("list", None).execute(
        &Value::Null,
        |_: u16, _: u32, _: &ToolCall| -> u8 { unreachable!() },
        |_: u64, _: u32, _: &ToolCall, told: Option<u8>| {
            assert_eq!(told, None);
            None
        },
    );
    assert_eq!(result, Ok(ToolResult::error("Tool execution returned null")));
}

#[test]
fn execution_stops_at_a_nul() {
    let result = tool("a\0b", Some(4)).execute(
        &Value::Null,
        |_: u16, _: u32, _: &ToolCall| -> u8 { unreachable!() },
        |_: u64, _: u32, _: &ToolCall, _: Option<u8>| -> Option<Vec<u8>> { unreachable!() },
    );
    assert_eq!(result, Err(ToolCallError::Nul(1)));
}

#[test]
fn call_errors_are_told_in_words() {
    assert_eq!(
        ToolCallError::Nul(12).message(),
        "nul byte found in provided data at position: 12"
    );
    assert_eq!(ToolCallError::Arguments.message(), "arguments cannot be written as JSON");
}
