use codexx::chat_stream::ChatSseState;
use codexx::chat_stream::ChatStreamOutput;
use codexx::chat_stream::SseData;
use codexx::chat_stream::StreamInput;
use codexx::chat_stream::classify_sse_data;
use codexx::chat_stream::u64_to_decimal;
use codexx::json::Json;
use codexx::json::JsonNumber;
use codexx::models::ContentItem;
use codexx::models::ReasoningItemContent;
use codexx::models::ResponseItem;

fn s(v: &str) -> Json {
    Json::String(v.to_string())
}

fn obj(fields: Vec<(&str, Json)>) -> Json {
    Json::Object(fields.into_iter().map(|(k, v)| (k.to_string(), v)).collect())
}

fn num(n: u64) -> Json {
    Json::Number(JsonNumber::PosInt(n))
}

fn chunk(choices: Vec<Json>) -> Json {
    obj(vec![("choices", Json::Array(choices))])
}

fn delta(d: Json) -> Json {
    obj(vec![("delta", d)])
}

fn finish(reason: &str) -> Json {
    obj(vec![("finish_reason", s(reason))])
}

fn tool_call(index: Option<u64>, id: Option<&str>, name: Option<&str>, args: Option<&str>) -> Json {
    let mut fields = Vec::new();
    if let Some(i) = index {
        fields.push(("index", num(i)));
    }
    if let Some(i) = id {
        fields.push(("id", s(i)));
    }
    let mut function = Vec::new();
    if let Some(n) = name {
        function.push(("name", s(n)));
    }
    if let Some(a) = args {
        function.push(("arguments", s(a)));
    }
    fields.push(("function", obj(function)));
    obj(fields)
}

fn assistant(text: &str) -> ResponseItem {
    ResponseItem::Message {
        role: "assistant".to_string(),
        content: vec![ContentItem::OutputText { text: text.to_string() }],
    }
}

#[test]
fn data_lines_are_classified_after_trimming() {
    assert_eq!(classify_sse_data("  \n"), SseData::Empty);
    assert_eq!(classify_sse_data(" [DONE] "), SseData::Done);
    assert_eq!(classify_sse_data("DONE"), SseData::Done);
    assert_eq!(classify_sse_data("\u{3000}DONE\u{3000}"), SseData::Done);
    assert_eq!(classify_sse_data("  {\"a\":1}\n"), SseData::Payload("{\"a\":1}".to_string()));
}

#[test]
fn assistant_text_streams_and_completes_once() {
    let mut state = ChatSseState::new();
    let (out, stop) = state.on_payload(&chunk(vec![delta(obj(vec![("content", s("Hel"))]))]));
    assert!(!stop);
    assert_eq!(out, vec![ChatStreamOutput::OutputTextDelta("Hel".to_string())]);
    let (out, _) = state.on_payload(&chunk(vec![delta(obj(vec![(
        "content",
        Json::Array(vec![obj(vec![("text", s("lo"))]), obj(vec![("type", s("x"))])]),
    )]))]));
    assert_eq!(out, vec![ChatStreamOutput::OutputTextDelta("lo".to_string())]);
    let (out, stop) = state.on_payload(&chunk(vec![finish("stop")]));
    assert!(!stop);
    assert_eq!(
        out,
        vec![ChatStreamOutput::OutputItemDone(assistant("Hello")), ChatStreamOutput::Completed]
    );
    let (out, _) = state.on_payload(&chunk(vec![finish("stop")]));
    assert_eq!(out, vec![]);
    assert_eq!(state.on_stream_end(), vec![]);
}

#[test]
fn reasoning_is_read_from_each_of_its_forms() {
    let mut state = ChatSseState::new();
    let (out, _) = state.on_payload(&chunk(vec![
        delta(obj(vec![("reasoning", s("a"))])),
        delta(obj(vec![("reasoning", obj(vec![("text", s("b"))]))])),
        obj(vec![("message", obj(vec![("reasoning", obj(vec![("content", s("c"))]))]))]),
    ]));
    assert_eq!(
        out,
        vec![
            ChatStreamOutput::ReasoningContentDelta { delta: "a".to_string(), content_index: 0 },
            ChatStreamOutput::ReasoningContentDelta { delta: "b".to_string(), content_index: 0 },
            ChatStreamOutput::ReasoningContentDelta { delta: "c".to_string(), content_index: 0 },
        ]
    );
    let out = state.on_stream_end();
    assert_eq!(
        out,
        vec![
            ChatStreamOutput::OutputItemDone(ResponseItem::Reasoning {
                content: Some(vec![ReasoningItemContent::ReasoningText { text: "abc".to_string() }]),
            }),
            ChatStreamOutput::Completed,
        ]
    );
}

#[test]
fn tool_calls_are_assembled_across_deltas() {
    let mut state = ChatSseState::new();
    let (out, _) = state.on_payload(&chunk(vec![delta(obj(vec![(
        "tool_calls",
        Json::Array(vec![
            tool_call(Some(0), Some("call_a"), Some("shell"), Some("{\"cmd\":")),
            tool_call(Some(1), None, Some("read"), Some("{}")),
        ]),
    )]))]));
    assert_eq!(out, vec![]);
    let (_, _) = state.on_payload(&chunk(vec![delta(obj(vec![(
        "tool_calls",
        Json::Array(vec![tool_call(None, Some("call_a"), None, Some("\"ls\"}"))]),
    )]))]));
    let (out, _) = state.on_payload(&chunk(vec![finish("tool_calls")]));
    assert_eq!(
        out,
        vec![
            ChatStreamOutput::OutputItemDone(ResponseItem::FunctionCall {
                name: "shell".to_string(),
                arguments: "{\"cmd\":\"ls\"}".to_string(),
                call_id: "call_a".to_string(),
            }),
            ChatStreamOutput::OutputItemDone(ResponseItem::FunctionCall {
                name: "read".to_string(),
                arguments: "{}".to_string(),
                call_id: "tool-call-1".to_string(),
            }),
        ]
    );
    let (out, _) = state.on_payload(&chunk(vec![finish("tool_calls")]));
    assert_eq!(out, vec![]);
}

#[test]
fn fragments_without_index_or_id_continue_the_last_call() {
    let mut state = ChatSseState::new();
    let _ = state.on_payload(&chunk(vec![delta(obj(vec![(
        "tool_calls",
        Json::Array(vec![
            tool_call(None, None, Some("first"), Some("a")),
            tool_call(None, None, None, Some("b")),
            tool_call(Some(7), None, None, Some("nameless")),
        ]),
    )]))]));
    let (out, _) = state.on_payload(&chunk(vec![finish("tool_calls")]));
    assert_eq!(
        out,
        vec![ChatStreamOutput::OutputItemDone(ResponseItem::FunctionCall {
            name: "first".to_string(),
            arguments: "ab".to_string(),
            call_id: "tool-call-0".to_string(),
        })]
    );
}

#[test]
fn fresh_indices_skip_those_in_use() {
    let mut state = ChatSseState::new();
    let _ = state.on_payload(&chunk(vec![delta(obj(vec![(
        "tool_calls",
        Json::Array(vec![
            tool_call(Some(0), None, Some("zero"), None),
            tool_call(Some(1), None, Some("one"), None),
            tool_call(None, Some("new"), Some("two"), None),
        ]),
    )]))]));
    let (out, _) = state.on_payload(&chunk(vec![finish("tool_calls")]));
    assert_eq!(out.len(), 3);
    assert_eq!(
        out[2],
        ChatStreamOutput::OutputItemDone(ResponseItem::FunctionCall {
            name: "two".to_string(),
            arguments: String::new(),
            call_id: "new".to_string(),
        })
    );
}

#[test]
fn length_ends_the_stream_with_an_error() {
    let mut state = ChatSseState::new();
    let (out, stop) = state.on_payload(&chunk(vec![
        delta(obj(vec![("content", s("x"))])),
        finish("length"),
        finish("stop"),
    ]));
    assert!(stop);
    assert_eq!(
        out,
        vec![ChatStreamOutput::OutputTextDelta("x".to_string()), ChatStreamOutput::ContextWindowExceeded]
    );
}

#[test]
fn stream_end_flushes_items_and_completes() {
    let mut state = ChatSseState::new();
    let _ = state.on_payload(&chunk(vec![delta(obj(vec![("content", s("hi"))]))]));
    assert_eq!(
        state.on_stream_end(),
        vec![ChatStreamOutput::OutputItemDone(assistant("hi")), ChatStreamOutput::Completed]
    );
}

#[test]
fn chunks_without_choices_change_nothing() {
    let mut state = ChatSseState::new();
    let (out, stop) = state.on_payload(&obj(vec![("id", s("x"))]));
    assert!(!stop);
    assert_eq!(out, vec![]);
    assert_eq!(state.on_stream_end(), vec![ChatStreamOutput::Completed]);
}

#[test]
fn errors_carry_their_messages() {
    assert_eq!(
        ChatSseState::on_idle_timeout(),
        ChatStreamOutput::StreamError("idle timeout waiting for SSE".to_string())
    );
    assert_eq!(
        ChatSseState::on_transport_error("boom".to_string()),
        ChatStreamOutput::StreamError("boom".to_string())
    );
}

#[test]
fn decimal_text_of_indices() {
    assert_eq!(u64_to_decimal(0), "0");
    assert_eq!(u64_to_decimal(42), "42");
    assert_eq!(u64_to_decimal(u64::MAX), "18446744073709551615");
}

fn run(inputs: Vec<StreamInput>) -> Vec<ChatStreamOutput> {
    let mut state = ChatSseState::new();
    let mut all = Vec::new();
    for input in inputs {
        let (out, stop) = state.on_event(input);
        all.extend(out);
        if stop {
            break;
        }
    }
    all
}

fn text_chunk(text: &str) -> StreamInput {
    StreamInput::Chunk(chunk(vec![delta(obj(vec![("content", s(text))]))]))
}

#[test]
fn whole_stream_hands_on_one_completion() {
    let out = run(vec![
        text_chunk("a"),
        StreamInput::Chunk(chunk(vec![finish("stop")])),
        text_chunk("b"),
        StreamInput::Chunk(chunk(vec![finish("stop"), finish("stop")])),
        StreamInput::End,
        text_chunk("never"),
    ]);
    assert_eq!(
        out,
        vec![
            ChatStreamOutput::OutputTextDelta("a".to_string()),
            ChatStreamOutput::OutputItemDone(assistant("a")),
            ChatStreamOutput::Completed,
            ChatStreamOutput::OutputTextDelta("b".to_string()),
            ChatStreamOutput::OutputItemDone(assistant("b")),
        ]
    );
}

#[test]
fn whole_stream_error_comes_last() {
    let out = run(vec![
        text_chunk("a"),
        StreamInput::TransportError("reset".to_string()),
        StreamInput::IdleTimeout,
    ]);
    assert_eq!(
        out,
        vec![
            ChatStreamOutput::OutputTextDelta("a".to_string()),
            ChatStreamOutput::StreamError("reset".to_string()),
        ]
    );
    let out = run(vec![StreamInput::Chunk(chunk(vec![finish("length"), finish("stop")])), StreamInput::End]);
    assert_eq!(out, vec![ChatStreamOutput::ContextWindowExceeded]);
    let out = run(vec![StreamInput::IdleTimeout]);
    assert_eq!(out, vec![ChatStreamOutput::StreamError("idle timeout waiting for SSE".to_string())]);
}

#[test]
fn inert_events_change_nothing() {
    let plain = run(vec![text_chunk("a"), StreamInput::Chunk(chunk(vec![finish("stop")]))]);
    let with_inert = run(vec![
        StreamInput::Ignored,
        text_chunk("a"),
        StreamInput::Chunk(obj(vec![("id", s("x"))])),
        StreamInput::Chunk(chunk(vec![])),
        StreamInput::Ignored,
        StreamInput::Chunk(chunk(vec![finish("stop")])),
    ]);
    assert_eq!(plain, with_inert);
    assert_eq!(ChatSseState::new().on_event(StreamInput::Ignored), (vec![], false));
}

#[test]
fn end_of_stream_flushes_and_completes() {
    let out = run(vec![text_chunk("hi"), StreamInput::End]);
    assert_eq!(
        out,
        vec![
            ChatStreamOutput::OutputTextDelta("hi".to_string()),
            ChatStreamOutput::OutputItemDone(assistant("hi")),
            ChatStreamOutput::Completed,
        ]
    );
}
