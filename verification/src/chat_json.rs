use vstd::prelude::*;
use crate::chat_request::{
    ChatContentPart, ChatContentPartView, ChatMessage, ChatMessageView, ChatRequestBody, ChatToolCall,
    ChatToolCallView, ChatToolContent, ChatToolContentView, calls_view, messages_view, parts_view,
};
use crate::json::{
    Json, JsonNumber, JsonNumberView, JsonView, elements_view, json_array, json_object, json_object1, json_object2,
    json_object3, json_object4, json_object6, json_string, json_view, no_elements, no_fields, push_element, push_field,
};
use crate::models::{LocalShellAction, LocalShellActionView, LocalShellStatus, pairs_view};
use crate::text::strings_view;
use crate::chat_request::ChatToolChoice;

verus! {

pub open spec fn jstr(s: Seq<char>) -> JsonView {
    JsonView::String(s)
}

pub open spec fn opt_str_json(o: Option<Seq<char>>) -> JsonView {
    match o {
        Some(s) => jstr(s),
        None => JsonView::Null,
    }
}

/// The JSON of a content part: a text part, or an image given by its URL.
pub open spec fn part_json(p: ChatContentPartView) -> JsonView {
    match p {
        ChatContentPartView::Text { text } => JsonView::Object(seq![("type"@, jstr("text"@)), ("text"@, jstr(text))]),
        ChatContentPartView::ImageUrl { url } => JsonView::Object(
            seq![("type"@, jstr("image_url"@)), ("image_url"@, JsonView::Object(seq![("url"@, jstr(url))]))],
        ),
    }
}

pub open spec fn parts_json(ps: Seq<ChatContentPartView>) -> Seq<JsonView> {
    ps.map_values(|p: ChatContentPartView| part_json(p))
}

pub open spec fn status_json(s: LocalShellStatus) -> JsonView {
    match s {
        LocalShellStatus::Completed => jstr("completed"@),
        LocalShellStatus::InProgress => jstr("in_progress"@),
        LocalShellStatus::Incomplete => jstr("incomplete"@),
    }
}

pub open spec fn strs_json(s: Seq<Seq<char>>) -> Seq<JsonView> {
    s.map_values(|w: Seq<char>| jstr(w))
}

pub open spec fn env_json(e: Seq<(Seq<char>, Seq<char>)>) -> Seq<(Seq<char>, JsonView)> {
    e.map_values(|kv: (Seq<char>, Seq<char>)| (kv.0, jstr(kv.1)))
}

/// The JSON of the command of a local shell call.
pub open spec fn action_json(a: LocalShellActionView) -> JsonView {
    JsonView::Object(
        seq![
            ("type"@, jstr("exec"@)),
            ("command"@, JsonView::Array(strs_json(a.command))),
            ("timeout_ms"@, match a.timeout_ms {
                Some(t) => JsonView::Number(JsonNumberView::PosInt(t)),
                None => JsonView::Null,
            }),
            ("working_directory"@, opt_str_json(a.working_directory)),
            ("env"@, match a.env {
                Some(e) => JsonView::Object(env_json(e)),
                None => JsonView::Null,
            }),
            ("user"@, opt_str_json(a.user)),
        ],
    )
}

/// The JSON of a tool call.
pub open spec fn tool_call_json(c: ChatToolCallView) -> JsonView {
    match c {
        ChatToolCallView::Function { id, name, arguments } => JsonView::Object(
            seq![
                ("id"@, jstr(id)),
                ("type"@, jstr("function"@)),
                ("function"@, JsonView::Object(seq![("name"@, jstr(name)), ("arguments"@, jstr(arguments))])),
            ],
        ),
        ChatToolCallView::LocalShell { id, status, action } => JsonView::Object(
            seq![
                ("id"@, jstr(id)),
                ("type"@, jstr("local_shell_call"@)),
                ("status"@, status_json(status)),
                ("action"@, action_json(action)),
            ],
        ),
        ChatToolCallView::Custom { id, name, input } => JsonView::Object(
            seq![
                ("id"@, jstr(id)),
                ("type"@, jstr("custom"@)),
                ("custom"@, JsonView::Object(seq![("name"@, jstr(name)), ("input"@, jstr(input))])),
            ],
        ),
    }
}

pub open spec fn tool_calls_json(cs: Seq<ChatToolCallView>) -> Seq<JsonView> {
    cs.map_values(|c: ChatToolCallView| tool_call_json(c))
}

pub open spec fn with_reasoning(fields: Seq<(Seq<char>, JsonView)>, reasoning: Option<Seq<char>>) -> Seq<(Seq<char>, JsonView)> {
    match reasoning {
        Some(r) => fields.push(("reasoning"@, jstr(r))),
        None => fields,
    }
}

/// The JSON of a chat message.
pub open spec fn message_json(m: ChatMessageView) -> JsonView {
    match m {
        ChatMessageView::System { content } => JsonView::Object(seq![("role"@, jstr("system"@)), ("content"@, jstr(content))]),
        ChatMessageView::Text { role, content, reasoning } => JsonView::Object(
            with_reasoning(seq![("role"@, jstr(role)), ("content"@, jstr(content))], reasoning),
        ),
        ChatMessageView::Parts { role, parts } => JsonView::Object(
            seq![("role"@, jstr(role)), ("content"@, JsonView::Array(parts_json(parts)))],
        ),
        ChatMessageView::ToolCalls { tool_calls, reasoning } => JsonView::Object(
            with_reasoning(
                seq![
                    ("role"@, jstr("assistant"@)),
                    ("content"@, JsonView::Null),
                    ("tool_calls"@, JsonView::Array(tool_calls_json(tool_calls))),
                ],
                reasoning,
            ),
        ),
        ChatMessageView::ToolResult { tool_call_id, content } => JsonView::Object(
            seq![
                ("role"@, jstr("tool"@)),
                ("tool_call_id"@, jstr(tool_call_id)),
                ("content"@, match content {
                    ChatToolContentView::Text(t) => jstr(t),
                    ChatToolContentView::Parts(p) => JsonView::Array(parts_json(p)),
                }),
            ],
        ),
    }
}

pub open spec fn messages_json(ms: Seq<ChatMessageView>) -> Seq<JsonView> {
    ms.map_values(|m: ChatMessageView| message_json(m))
}

/// The tool choice of a request, by its view.
pub open spec fn choice_view(c: Option<ChatToolChoice>) -> Option<(Seq<char>, bool)> {
    match c {
        Some(c) => Some((c.tool_choice@, c.parallel_tool_calls)),
        None => None,
    }
}

/// The JSON body of a chat completions request with `tools`.
pub open spec fn body_json(
    model: Seq<char>,
    messages: Seq<ChatMessageView>,
    stream: bool,
    tools: Seq<JsonView>,
    tool_choice: Option<(Seq<char>, bool)>,
) -> JsonView {
    let fields = seq![
        ("model"@, jstr(model)),
        ("messages"@, JsonView::Array(messages_json(messages))),
        ("stream"@, JsonView::Bool(stream)),
        ("tools"@, JsonView::Array(tools)),
    ];
    JsonView::Object(
        match tool_choice {
            Some((c, parallel)) => fields.push(("tool_choice"@, jstr(c))).push(("parallel_tool_calls"@, JsonView::Bool(parallel))),
            None => fields,
        },
    )
}

/// The JSON of each part.
fn parts_to_json(items: &Vec<ChatContentPart>) -> (res: Vec<Json>)
    ensures
        elements_view(res@) == parts_json(parts_view(items@)),
{
    let mut res = no_elements();
    let n = items.len();
    let mut i: usize = 0;
    while i < n
        invariant
            n == items@.len(),
            i <= n,
            elements_view(res@) == parts_json(parts_view(items@.take(i as int))),
        decreases n - i,
    {
        let ghost prev = res@;
        push_element(&mut res, part_to_json(&items[i]));
        proof {
            assert(parts_json(parts_view(items@.take(i + 1))) =~= parts_json(parts_view(items@.take(i as int))).push(part_json(items@[i as int]@)));
        }
        i = i + 1;
    }
    proof { assert(items@.take(n as int) == items@); }
    res
}

/// Each string as JSON.
fn strings_to_json(items: &Vec<String>) -> (res: Vec<Json>)
    ensures
        elements_view(res@) == strs_json(strings_view(items@)),
{
    let mut res = no_elements();
    let n = items.len();
    let mut i: usize = 0;
    while i < n
        invariant
            n == items@.len(),
            i <= n,
            elements_view(res@) == strs_json(strings_view(items@.take(i as int))),
        decreases n - i,
    {
        let ghost prev = res@;
        push_element(&mut res, json_string(items[i].as_str()));
        proof {
            assert(strs_json(strings_view(items@.take(i + 1))) =~= strs_json(strings_view(items@.take(i as int))).push(jstr(items@[i as int]@)));
        }
        i = i + 1;
    }
    proof { assert(items@.take(n as int) == items@); }
    res
}

/// The JSON of each tool call.
fn tool_calls_to_json(items: &Vec<ChatToolCall>) -> (res: Vec<Json>)
    ensures
        elements_view(res@) == tool_calls_json(calls_view(items@)),
{
    let mut res = no_elements();
    let n = items.len();
    let mut i: usize = 0;
    while i < n
        invariant
            n == items@.len(),
            i <= n,
            elements_view(res@) == tool_calls_json(calls_view(items@.take(i as int))),
        decreases n - i,
    {
        let ghost prev = res@;
        push_element(&mut res, tool_call_to_json(&items[i]));
        proof {
            assert(tool_calls_json(calls_view(items@.take(i + 1))) =~= tool_calls_json(calls_view(items@.take(i as int))).push(tool_call_json(items@[i as int]@)));
        }
        i = i + 1;
    }
    proof { assert(items@.take(n as int) == items@); }
    res
}

/// The JSON of a content part.
fn part_to_json(p: &ChatContentPart) -> (res: Json)
    ensures
        json_view(res) == part_json(p@),
{
    match p {
        ChatContentPart::Text { text } => json_object2("type", json_string("text"), "text", json_string(text.as_str())),
        ChatContentPart::ImageUrl { url } => json_object2(
            "type",
            json_string("image_url"),
            "image_url",
            json_object1("url", json_string(url.as_str())),
        ),
    }
}

/// The JSON of the status of a local shell call.
fn status_to_json(s: LocalShellStatus) -> (res: Json)
    ensures
        json_view(res) == status_json(s),
{
    match s {
        LocalShellStatus::Completed => json_string("completed"),
        LocalShellStatus::InProgress => json_string("in_progress"),
        LocalShellStatus::Incomplete => json_string("incomplete"),
    }
}

fn opt_str_to_json(o: &Option<String>) -> (res: Json)
    ensures
        json_view(res) == opt_str_json(crate::models::opt_string_view(*o)),
{
    match o {
        Some(s) => json_string(s.as_str()),
        None => Json::Null,
    }
}

/// The JSON of the command of a local shell call.
fn action_to_json(a: &LocalShellAction) -> (res: Json)
    ensures
        json_view(res) == action_json(a@),
{
    let timeout = match a.timeout_ms {
        Some(t) => Json::Number(JsonNumber::PosInt(t)),
        None => Json::Null,
    };
    let env = match &a.env {
        Some(pairs) => {
            let mut ef = no_fields();
            let n = pairs.len();
            let mut i: usize = 0;
            while i < n
                invariant
                    n == pairs@.len(),
                    i <= n,
                    crate::json::fields_view(ef@) == env_json(pairs_view(pairs@.take(i as int))),
                decreases n - i,
            {
                push_field(&mut ef, pairs[i].0.as_str(), json_string(pairs[i].1.as_str()));
                proof {
                    assert(env_json(pairs_view(pairs@.take(i + 1))) =~= env_json(pairs_view(pairs@.take(i as int))).push(
                        (pairs@[i as int].0@, jstr(pairs@[i as int].1@)),
                    ));
                }
                i = i + 1;
            }
            proof { assert(pairs@.take(n as int) == pairs@); }
            json_object(ef)
        },
        None => Json::Null,
    };
    proof {
        assert(json_view(timeout) == (match a@.timeout_ms {
            Some(t) => JsonView::Number(JsonNumberView::PosInt(t)),
            None => JsonView::Null,
        }));
        assert(json_view(env) == (match a@.env {
            Some(e) => JsonView::Object(env_json(e)),
            None => JsonView::Null,
        }));
    }
    let command = json_array(strings_to_json(&a.command));
    let working_directory = opt_str_to_json(&a.working_directory);
    let user = opt_str_to_json(&a.user);
    proof {
        assert(json_view(command) == JsonView::Array(strs_json(a@.command)));
        assert(json_view(working_directory) == opt_str_json(a@.working_directory));
        assert(json_view(user) == opt_str_json(a@.user));
    }
    let ghost expected = JsonView::Object(
        seq![
            ("type"@, jstr("exec"@)),
            ("command"@, json_view(command)),
            ("timeout_ms"@, json_view(timeout)),
            ("working_directory"@, json_view(working_directory)),
            ("env"@, json_view(env)),
            ("user"@, json_view(user)),
        ],
    );
    proof { assert(expected->Object_0 =~= action_json(a@)->Object_0); }
    json_object6(
        "type",
        json_string("exec"),
        "command",
        command,
        "timeout_ms",
        timeout,
        "working_directory",
        working_directory,
        "env",
        env,
        "user",
        user,
    )
}

/// The JSON of a tool call.
fn tool_call_to_json(c: &ChatToolCall) -> (res: Json)
    ensures
        json_view(res) == tool_call_json(c@),
{
    match c {
        ChatToolCall::Function { id, name, arguments } => json_object3(
            "id",
            json_string(id.as_str()),
            "type",
            json_string("function"),
            "function",
            json_object2("name", json_string(name.as_str()), "arguments", json_string(arguments.as_str())),
        ),
        ChatToolCall::LocalShell { id, status, action } => json_object4(
            "id",
            json_string(id.as_str()),
            "type",
            json_string("local_shell_call"),
            "status",
            status_to_json(*status),
            "action",
            action_to_json(action),
        ),
        ChatToolCall::Custom { id, name, input } => json_object3(
            "id",
            json_string(id.as_str()),
            "type",
            json_string("custom"),
            "custom",
            json_object2("name", json_string(name.as_str()), "input", json_string(input.as_str())),
        ),
    }
}

/// `fields` with the reasoning added, where there is some.
fn push_reasoning(fields: &mut Vec<(String, Json)>, reasoning: &Option<String>)
    ensures
        crate::json::fields_view(final(fields)@) == with_reasoning(
            crate::json::fields_view(old(fields)@),
            crate::models::opt_string_view(*reasoning),
        ),
{
    if let Some(r) = reasoning {
        push_field(fields, "reasoning", json_string(r.as_str()));
    }
}

/// The JSON of a chat message.
pub fn message_to_json(m: &ChatMessage) -> (res: Json)
    ensures
        json_view(res) == message_json(m@),
{
    let res = match m {
        ChatMessage::System { content } => json_object2("role", json_string("system"), "content", json_string(content.as_str())),
        ChatMessage::Text { role, content, reasoning } => {
            let mut f = no_fields();
            push_field(&mut f, "role", json_string(role.as_str()));
            push_field(&mut f, "content", json_string(content.as_str()));
            proof {
                assert(crate::json::fields_view(f@) =~= seq![("role"@, jstr(role@)), ("content"@, jstr(content@))]);
            }
            push_reasoning(&mut f, reasoning);
            json_object(f)
        },
        ChatMessage::Parts { role, parts } => json_object2(
            "role",
            json_string(role.as_str()),
            "content",
            json_array(parts_to_json(parts)),
        ),
        ChatMessage::ToolCalls { tool_calls, reasoning } => {
            let mut f = no_fields();
            push_field(&mut f, "role", json_string("assistant"));
            push_field(&mut f, "content", Json::Null);
            push_field(&mut f, "tool_calls", json_array(tool_calls_to_json(tool_calls)));
            proof {
                assert(crate::json::fields_view(f@) =~= seq![
                    ("role"@, jstr("assistant"@)),
                    ("content"@, JsonView::Null),
                    ("tool_calls"@, JsonView::Array(tool_calls_json(calls_view(tool_calls@)))),
                ]);
            }
            push_reasoning(&mut f, reasoning);
            json_object(f)
        },
        ChatMessage::ToolResult { tool_call_id, content } => {
            let body = match content {
                ChatToolContent::Text(t) => json_string(t.as_str()),
                ChatToolContent::Parts(p) => json_array(parts_to_json(p)),
            };
            json_object3("role", json_string("tool"), "tool_call_id", json_string(tool_call_id.as_str()), "content", body)
        },
    };
    proof { assert(json_view(res)->Object_0 =~= message_json(m@)->Object_0); }
    res
}

/// The JSON body of a chat completions request, with `tools` as they are.
pub fn chat_body_to_json(body: &ChatRequestBody, tools: Vec<Json>) -> (res: Json)
    ensures
        json_view(res) == body_json(
            body.model@,
            messages_view(body.messages@),
            body.stream,
            elements_view(tools@),
            choice_view(body.tool_choice),
        ),
{
    let mut messages = no_elements();
    let n = body.messages.len();
    let mut i: usize = 0;
    while i < n
        invariant
            n == body.messages@.len(),
            i <= n,
            elements_view(messages@) == messages_json(messages_view(body.messages@.take(i as int))),
        decreases n - i,
    {
        push_element(&mut messages, message_to_json(&body.messages[i]));
        proof {
            assert(messages_json(messages_view(body.messages@.take(i + 1))) =~= messages_json(
                messages_view(body.messages@.take(i as int)),
            ).push(message_json(body.messages@[i as int]@)));
        }
        i = i + 1;
    }
    proof { assert(body.messages@.take(n as int) == body.messages@); }
    let mut f = no_fields();
    push_field(&mut f, "model", json_string(body.model.as_str()));
    push_field(&mut f, "messages", json_array(messages));
    push_field(&mut f, "stream", Json::Bool(body.stream));
    push_field(&mut f, "tools", json_array(tools));
    if let Some(choice) = &body.tool_choice {
        push_field(&mut f, "tool_choice", json_string(choice.tool_choice.as_str()));
        push_field(&mut f, "parallel_tool_calls", Json::Bool(choice.parallel_tool_calls));
    }
    let res = json_object(f);
    proof {
        let expected = body_json(
            body.model@,
            messages_view(body.messages@),
            body.stream,
            elements_view(tools@),
            choice_view(body.tool_choice),
        );
        assert(json_view(res)->Object_0 =~= expected->Object_0);
    }
    res
}


/// The value of the first field of `fields` named `key`.
pub open spec fn object_field(fields: Seq<(Seq<char>, JsonView)>, key: Seq<char>) -> Option<JsonView>
    decreases fields.len(),
{
    if fields.len() == 0 {
        None
    } else if fields[0].0 == key {
        Some(fields[0].1)
    } else {
        object_field(fields.drop_first(), key)
    }
}

/// The value that `v` holds under `key`, where `v` is an object that has it.
pub open spec fn view_get(v: JsonView, key: Seq<char>) -> Option<JsonView> {
    match v {
        JsonView::Object(fields) => object_field(fields, key),
        _ => None,
    }
}

/// The reasoning a message carries, where it can carry any.
pub open spec fn message_reasoning(m: ChatMessageView) -> Option<Seq<char>> {
    match m {
        ChatMessageView::Text { reasoning, .. } => reasoning,
        ChatMessageView::ToolCalls { reasoning, .. } => reasoning,
        _ => None,
    }
}

/// The reasoning attached to a message is sent with it: its JSON has a
/// `reasoning` field holding exactly that text, and a message without
/// reasoning has no such field.
pub proof fn law_message_reasoning_is_sent(m: ChatMessageView)
    ensures
        view_get(message_json(m), "reasoning"@) == match message_reasoning(m) {
            Some(r) => Some(jstr(r)),
            None => None,
        },
{
    reveal_strlit("reasoning");
    reveal_strlit("role");
    reveal_strlit("content");
    reveal_strlit("tool_calls");
    reveal_strlit("tool_call_id");
    reveal_with_fuel(object_field, 5);
    let key = "reasoning"@;
    assert(key.len() == 9);
    assert("role"@.len() == 4);
    assert("content"@.len() == 7);
    assert("tool_calls"@.len() == 10);
    assert("tool_call_id"@.len() == 12);
    match m {
        ChatMessageView::System { content } => {
            let f = seq![("role"@, jstr("system"@)), ("content"@, jstr(content))];
            assert(f.drop_first().drop_first() =~= Seq::<(Seq<char>, JsonView)>::empty());
        },
        ChatMessageView::Text { role, content, reasoning } => {
            let base = seq![("role"@, jstr(role)), ("content"@, jstr(content))];
            let f = with_reasoning(base, reasoning);
            if reasoning is Some {
                assert(f.drop_first().drop_first() =~= seq![("reasoning"@, jstr(reasoning.unwrap()))]);
            } else {
                assert(f.drop_first().drop_first() =~= Seq::<(Seq<char>, JsonView)>::empty());
            }
        },
        ChatMessageView::Parts { role, parts } => {
            let f = seq![("role"@, jstr(role)), ("content"@, JsonView::Array(parts_json(parts)))];
            assert(f.drop_first().drop_first() =~= Seq::<(Seq<char>, JsonView)>::empty());
        },
        ChatMessageView::ToolCalls { tool_calls, reasoning } => {
            let base = seq![
                ("role"@, jstr("assistant"@)),
                ("content"@, JsonView::Null),
                ("tool_calls"@, JsonView::Array(tool_calls_json(tool_calls))),
            ];
            let f = with_reasoning(base, reasoning);
            if reasoning is Some {
                assert(f.drop_first().drop_first().drop_first() =~= seq![("reasoning"@, jstr(reasoning.unwrap()))]);
            } else {
                assert(f.drop_first().drop_first().drop_first() =~= Seq::<(Seq<char>, JsonView)>::empty());
            }
        },
        ChatMessageView::ToolResult { tool_call_id, content } => {
            let f = seq![
                ("role"@, jstr("tool"@)),
                ("tool_call_id"@, jstr(tool_call_id)),
                ("content"@, match content {
                    ChatToolContentView::Text(t) => jstr(t),
                    ChatToolContentView::Parts(p) => JsonView::Array(parts_json(p)),
                }),
            ];
            assert(f.drop_first().drop_first().drop_first() =~= Seq::<(Seq<char>, JsonView)>::empty());
        },
    }
}

} // verus!
