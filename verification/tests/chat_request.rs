use codexx::chat_json::chat_body_to_json;
use codexx::chat_json::message_to_json;
use codexx::chat_request::ChatContentPart;
use codexx::chat_request::ChatMessage;
use codexx::chat_request::ChatToolCall;
use codexx::chat_request::ChatToolContent;
use codexx::chat_request::ResponsesApiRequest;
use codexx::chat_request::build_chat_request;
use codexx::chat_request::function_call_output_json;
use codexx::chat_request::push_tool_call_message;
use codexx::json::Json;
use codexx::models::ContentItem;
use codexx::models::FunctionCallOutputBody;
use codexx::models::FunctionCallOutputContentItem;
use codexx::models::LocalShellAction;
use codexx::models::LocalShellStatus;
use codexx::models::ReasoningItemContent;
use codexx::models::ResponseItem;

fn message(role: &str, text: &str) -> ResponseItem {
    ResponseItem::Message {
        role: role.to_string(),
        content: vec![ContentItem::InputText { text: text.to_string() }],
    }
}

fn reasoning(text: &str) -> ResponseItem {
    ResponseItem::Reasoning {
        content: Some(vec![ReasoningItemContent::ReasoningText { text: text.to_string() }]),
    }
}

fn function_call(name: &str, call_id: &str) -> ResponseItem {
    ResponseItem::FunctionCall {
        name: name.to_string(),
        arguments: "{}".to_string(),
        call_id: call_id.to_string(),
    }
}

fn request(instructions: &str, input: Vec<ResponseItem>) -> ResponsesApiRequest {
    ResponsesApiRequest {
        model: "gpt-test".to_string(),
        instructions: instructions.to_string(),
        input,
        tool_choice: String::new(),
        parallel_tool_calls: false,
    }
}

fn text_message(role: &str, content: &str, reasoning: Option<&str>) -> ChatMessage {
    ChatMessage::Text {
        role: role.to_string(),
        content: content.to_string(),
        reasoning: reasoning.map(str::to_string),
    }
}

fn function_tool_call(id: &str, name: &str) -> ChatToolCall {
    ChatToolCall::Function { id: id.to_string(), name: name.to_string(), arguments: "{}".to_string() }
}

#[test]
fn instructions_become_the_system_message() {
    let body = build_chat_request(&request("be brief", vec![message("user", "hi")]));
    assert_eq!(body.model, "gpt-test");
    assert!(body.stream);
    assert_eq!(body.tool_choice, None);
    assert_eq!(
        body.messages,
        vec![
            ChatMessage::System { content: "be brief".to_string() },
            text_message("user", "hi", None),
        ]
    );
    let body = build_chat_request(&request("", vec![message("user", "hi")]));
    assert_eq!(body.messages, vec![text_message("user", "hi", None)]);
}

#[test]
fn reasoning_attaches_to_the_assistant_message_before_it() {
    let body = build_chat_request(&request(
        "",
        vec![message("user", "q"), message("assistant", "a"), reasoning("thinking")],
    ));
    assert_eq!(
        body.messages,
        vec![text_message("user", "q", None), text_message("assistant", "a", Some("thinking"))]
    );
}

#[test]
fn reasoning_attaches_to_the_call_after_it() {
    let body = build_chat_request(&request(
        "",
        vec![message("user", "q"), reasoning("plan"), function_call("shell", "c1")],
    ));
    assert_eq!(
        body.messages,
        vec![
            text_message("user", "q", None),
            ChatMessage::ToolCalls { tool_calls: vec![function_tool_call("c1", "shell")], reasoning: Some("plan".to_string()) },
        ]
    );
}

#[test]
fn no_reasoning_when_the_user_spoke_last() {
    let body = build_chat_request(&request(
        "",
        vec![message("assistant", "a"), reasoning("old"), message("user", "q")],
    ));
    assert_eq!(body.messages, vec![text_message("assistant", "a", None), text_message("user", "q", None)]);
}

#[test]
fn reasoning_before_the_last_user_message_is_dropped() {
    let body = build_chat_request(&request(
        "",
        vec![
            message("assistant", "a"),
            reasoning("old"),
            message("user", "q"),
            function_call("f", "c1"),
        ],
    ));
    assert_eq!(
        body.messages,
        vec![
            text_message("assistant", "a", None),
            text_message("user", "q", None),
            ChatMessage::ToolCalls { tool_calls: vec![function_tool_call("c1", "f")], reasoning: None },
        ]
    );
}

#[test]
fn blank_reasoning_is_ignored() {
    let body = build_chat_request(&request(
        "",
        vec![message("user", "q"), message("assistant", "a"), reasoning(" \n\u{3000}")],
    ));
    assert_eq!(body.messages, vec![text_message("user", "q", None), text_message("assistant", "a", None)]);
}

#[test]
fn consecutive_calls_share_one_message_and_their_reasoning() {
    let body = build_chat_request(&request(
        "",
        vec![
            message("user", "q"),
            reasoning("first"),
            function_call("f", "c1"),
            reasoning("second"),
            ResponseItem::CustomToolCall {
                call_id: "c2".to_string(),
                name: "apply_patch".to_string(),
                input: "patch".to_string(),
            },
            ResponseItem::FunctionCallOutput {
                call_id: "c1".to_string(),
                output: FunctionCallOutputBody::Text("ok".to_string()),
            },
        ],
    ));
    assert_eq!(
        body.messages,
        vec![
            text_message("user", "q", None),
            ChatMessage::ToolCalls {
                tool_calls: vec![
                    function_tool_call("c1", "f"),
                    ChatToolCall::Custom { id: "c2".to_string(), name: "apply_patch".to_string(), input: "patch".to_string() },
                ],
                reasoning: Some("first\nsecond".to_string()),
            },
            ChatMessage::ToolResult { tool_call_id: "c1".to_string(), content: ChatToolContent::Text("ok".to_string()) },
        ]
    );
}

#[test]
fn repeated_assistant_text_is_dropped() {
    let body = build_chat_request(&request(
        "",
        vec![message("assistant", "same"), message("user", "q"), message("assistant", "same")],
    ));
    assert_eq!(body.messages, vec![text_message("assistant", "same", None), text_message("user", "q", None)]);
}

#[test]
fn images_turn_user_content_into_parts() {
    let body = build_chat_request(&request(
        "",
        vec![ResponseItem::Message {
            role: "user".to_string(),
            content: vec![
                ContentItem::InputText { text: "look".to_string() },
                ContentItem::InputImage { image_url: "data:image/png".to_string() },
            ],
        }],
    ));
    assert_eq!(
        body.messages,
        vec![ChatMessage::Parts {
            role: "user".to_string(),
            parts: vec![
                ChatContentPart::Text { text: "look".to_string() },
                ChatContentPart::ImageUrl { url: "data:image/png".to_string() },
            ],
        }]
    );
}

#[test]
fn assistant_content_is_always_text() {
    let body = build_chat_request(&request(
        "",
        vec![ResponseItem::Message {
            role: "assistant".to_string(),
            content: vec![
                ContentItem::OutputText { text: "a".to_string() },
                ContentItem::InputImage { image_url: "u".to_string() },
                ContentItem::OutputText { text: "b".to_string() },
            ],
        }],
    ));
    assert_eq!(body.messages, vec![text_message("assistant", "ab", None)]);
}

#[test]
fn local_shell_call_id_falls_back_to_item_id() {
    let action = || LocalShellAction {
        command: vec!["ls".to_string()],
        timeout_ms: Some(1000),
        working_directory: None,
        env: None,
        user: None,
    };
    let body = build_chat_request(&request(
        "",
        vec![
            ResponseItem::LocalShellCall {
                id: Some("item-1".to_string()),
                call_id: None,
                status: LocalShellStatus::Completed,
                action: action(),
            },
            message("user", "q"),
            ResponseItem::LocalShellCall { id: None, call_id: None, status: LocalShellStatus::InProgress, action: action() },
        ],
    ));
    assert_eq!(
        body.messages,
        vec![
            ChatMessage::ToolCalls {
                tool_calls: vec![ChatToolCall::LocalShell { id: "item-1".to_string(), status: LocalShellStatus::Completed, action: action() }],
                reasoning: None,
            },
            text_message("user", "q", None),
            ChatMessage::ToolCalls {
                tool_calls: vec![ChatToolCall::LocalShell { id: String::new(), status: LocalShellStatus::InProgress, action: action() }],
                reasoning: None,
            },
        ]
    );
}

#[test]
fn tool_choice_is_sent_only_when_set() {
    let mut req = request("", vec![message("user", "q")]);
    req.tool_choice = "auto".to_string();
    req.parallel_tool_calls = true;
    let body = build_chat_request(&req);
    let choice = body.tool_choice.expect("tool choice");
    assert_eq!(choice.tool_choice, "auto");
    assert!(choice.parallel_tool_calls);
}

#[test]
fn tool_outputs_with_parts_keep_their_parts() {
    let out = function_call_output_json(&FunctionCallOutputBody::ContentItems(vec![
        FunctionCallOutputContentItem::InputText { text: "t".to_string() },
        FunctionCallOutputContentItem::InputImage { image_url: "u".to_string() },
    ]));
    assert_eq!(
        out,
        ChatToolContent::Parts(vec![
            ChatContentPart::Text { text: "t".to_string() },
            ChatContentPart::ImageUrl { url: "u".to_string() },
        ])
    );
}

#[test]
fn every_tool_output_gets_one_reply() {
    let body = build_chat_request(&request(
        "sys",
        vec![
            message("user", "q"),
            function_call("f", "c1"),
            ResponseItem::FunctionCallOutput { call_id: "c1".to_string(), output: FunctionCallOutputBody::Text("1".to_string()) },
            ResponseItem::CustomToolCallOutput { call_id: "c2".to_string(), output: FunctionCallOutputBody::Text("2".to_string()) },
            ResponseItem::ToolSearchOutput,
        ],
    ));
    let replies = body.messages.iter().filter(|m| matches!(m, ChatMessage::ToolResult { .. })).count();
    assert_eq!(replies, 2);
    assert_eq!(body.messages[0], ChatMessage::System { content: "sys".to_string() });
}

#[test]
fn push_tool_call_merges_into_a_call_message() {
    let mut messages = vec![ChatMessage::ToolCalls { tool_calls: vec![function_tool_call("a", "f")], reasoning: Some(String::new()) }];
    push_tool_call_message(&mut messages, function_tool_call("b", "g"), Some("r"));
    assert_eq!(
        messages,
        vec![ChatMessage::ToolCalls {
            tool_calls: vec![function_tool_call("a", "f"), function_tool_call("b", "g")],
            reasoning: Some("r".to_string()),
        }]
    );
    let mut messages = vec![text_message("user", "q", None)];
    push_tool_call_message(&mut messages, function_tool_call("b", "g"), None);
    assert_eq!(messages.len(), 2);
    assert_eq!(messages[1], ChatMessage::ToolCalls { tool_calls: vec![function_tool_call("b", "g")], reasoning: None });
}

fn jstr(s: &str) -> Json {
    Json::String(s.to_string())
}

fn jobj(fields: Vec<(&str, Json)>) -> Json {
    Json::Object(fields.into_iter().map(|(k, v)| (k.to_string(), v)).collect())
}

#[test]
fn request_body_json_has_the_chat_shape() {
    let mut req = request(
        "sys",
        vec![
            message("user", "q"),
            reasoning("plan"),
            function_call("f", "c1"),
            ResponseItem::FunctionCallOutput { call_id: "c1".to_string(), output: FunctionCallOutputBody::Text("ok".to_string()) },
        ],
    );
    req.tool_choice = "auto".to_string();
    let body = build_chat_request(&req);
    let json = chat_body_to_json(&body, vec![jobj(vec![("type", jstr("function"))])]);
    assert_eq!(
        json,
        jobj(vec![
            ("model", jstr("gpt-test")),
            (
                "messages",
                Json::Array(vec![
                    jobj(vec![("role", jstr("system")), ("content", jstr("sys"))]),
                    jobj(vec![("role", jstr("user")), ("content", jstr("q"))]),
                    jobj(vec![
                        ("role", jstr("assistant")),
                        ("content", Json::Null),
                        (
                            "tool_calls",
                            Json::Array(vec![jobj(vec![
                                ("id", jstr("c1")),
                                ("type", jstr("function")),
                                ("function", jobj(vec![("name", jstr("f")), ("arguments", jstr("{}"))])),
                            ])]),
                        ),
                        ("reasoning", jstr("plan")),
                    ]),
                    jobj(vec![("role", jstr("tool")), ("tool_call_id", jstr("c1")), ("content", jstr("ok"))]),
                ]),
            ),
            ("stream", Json::Bool(true)),
            ("tools", Json::Array(vec![jobj(vec![("type", jstr("function"))])])),
            ("tool_choice", jstr("auto")),
            ("parallel_tool_calls", Json::Bool(false)),
        ])
    );
}

#[test]
fn image_parts_encode_their_urls() {
    let message = ChatMessage::Parts {
        role: "user".to_string(),
        parts: vec![ChatContentPart::ImageUrl { url: "u".to_string() }],
    };
    assert_eq!(
        message_to_json(&message),
        jobj(vec![
            ("role", jstr("user")),
            (
                "content",
                Json::Array(vec![jobj(vec![("type", jstr("image_url")), ("image_url", jobj(vec![("url", jstr("u"))]))])]),
            ),
        ])
    );
}
