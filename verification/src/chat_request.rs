use vstd::prelude::*;
use crate::models::{
    ContentItem, ContentItemView, FunctionCallOutputBody, FunctionCallOutputBodyView,
    FunctionCallOutputContentItem, FunctionCallOutputContentItemView, LocalShellAction,
    LocalShellActionView, LocalShellStatus, ReasoningItemContent, ReasoningItemContentView,
    ResponseItem, ResponseItemView, clone_opt_string, content_view, items_view, opt_string_view,
    reasoning_content_view,
};
use crate::text::{is_blank, lemma_trim_empty_iff_blank, owned, push_str, str_eq, str_trim};

verus! {

/// One part of a chat message's content.
#[derive(Debug, PartialEq)]
pub enum ChatContentPart {
    Text { text: String },
    ImageUrl { url: String },
}

pub enum ChatContentPartView {
    Text { text: Seq<char> },
    ImageUrl { url: Seq<char> },
}

impl View for ChatContentPart {
    type V = ChatContentPartView;

    open spec fn view(&self) -> ChatContentPartView {
        match self {
            ChatContentPart::Text { text } => ChatContentPartView::Text { text: text@ },
            ChatContentPart::ImageUrl { url } => ChatContentPartView::ImageUrl { url: url@ },
        }
    }
}

pub open spec fn parts_view(p: Seq<ChatContentPart>) -> Seq<ChatContentPartView> {
    p.map_values(|x: ChatContentPart| x@)
}

/// A tool call that an assistant message carries.
#[derive(Debug, PartialEq)]
pub enum ChatToolCall {
    Function { id: String, name: String, arguments: String },
    LocalShell { id: String, status: LocalShellStatus, action: LocalShellAction },
    Custom { id: String, name: String, input: String },
}

pub enum ChatToolCallView {
    Function { id: Seq<char>, name: Seq<char>, arguments: Seq<char> },
    LocalShell { id: Seq<char>, status: LocalShellStatus, action: LocalShellActionView },
    Custom { id: Seq<char>, name: Seq<char>, input: Seq<char> },
}

impl View for ChatToolCall {
    type V = ChatToolCallView;

    open spec fn view(&self) -> ChatToolCallView {
        match self {
            ChatToolCall::Function { id, name, arguments } => ChatToolCallView::Function {
                id: id@,
                name: name@,
                arguments: arguments@,
            },
            ChatToolCall::LocalShell { id, status, action } => ChatToolCallView::LocalShell {
                id: id@,
                status: *status,
                action: action@,
            },
            ChatToolCall::Custom { id, name, input } => ChatToolCallView::Custom {
                id: id@,
                name: name@,
                input: input@,
            },
        }
    }
}

pub open spec fn calls_view(c: Seq<ChatToolCall>) -> Seq<ChatToolCallView> {
    c.map_values(|x: ChatToolCall| x@)
}

/// The content of a tool's reply: a text, or a list of parts.
#[derive(Debug, PartialEq)]
pub enum ChatToolContent {
    Text(String),
    Parts(Vec<ChatContentPart>),
}

pub enum ChatToolContentView {
    Text(Seq<char>),
    Parts(Seq<ChatContentPartView>),
}

impl View for ChatToolContent {
    type V = ChatToolContentView;

    open spec fn view(&self) -> ChatToolContentView {
        match self {
            ChatToolContent::Text(t) => ChatToolContentView::Text(t@),
            ChatToolContent::Parts(p) => ChatToolContentView::Parts(parts_view(p@)),
        }
    }
}

/// A message of a chat completions request.
///
/// `Text` has its content as one string; `Parts` (a message that shows an
/// image) as a list of parts; `ToolCalls` is an assistant message whose
/// content is null and which carries tool calls; `ToolResult` answers one.
#[allow(inconsistent_fields)]
#[derive(Debug, PartialEq)]
pub enum ChatMessage {
    System { content: String },
    Text { role: String, content: String, reasoning: Option<String> },
    Parts { role: String, parts: Vec<ChatContentPart> },
    ToolCalls { tool_calls: Vec<ChatToolCall>, reasoning: Option<String> },
    ToolResult { tool_call_id: String, content: ChatToolContent },
}

#[allow(inconsistent_fields)]
pub enum ChatMessageView {
    System { content: Seq<char> },
    Text { role: Seq<char>, content: Seq<char>, reasoning: Option<Seq<char>> },
    Parts { role: Seq<char>, parts: Seq<ChatContentPartView> },
    ToolCalls { tool_calls: Seq<ChatToolCallView>, reasoning: Option<Seq<char>> },
    ToolResult { tool_call_id: Seq<char>, content: ChatToolContentView },
}

impl View for ChatMessage {
    type V = ChatMessageView;

    open spec fn view(&self) -> ChatMessageView {
        match self {
            ChatMessage::System { content } => ChatMessageView::System { content: content@ },
            ChatMessage::Text { role, content, reasoning } => ChatMessageView::Text {
                role: role@,
                content: content@,
                reasoning: opt_string_view(*reasoning),
            },
            ChatMessage::Parts { role, parts } => ChatMessageView::Parts { role: role@, parts: parts_view(parts@) },
            ChatMessage::ToolCalls { tool_calls, reasoning } => ChatMessageView::ToolCalls {
                tool_calls: calls_view(tool_calls@),
                reasoning: opt_string_view(*reasoning),
            },
            ChatMessage::ToolResult { tool_call_id, content } => ChatMessageView::ToolResult {
                tool_call_id: tool_call_id@,
                content: content@,
            },
        }
    }
}

pub open spec fn messages_view(m: Seq<ChatMessage>) -> Seq<ChatMessageView> {
    m.map_values(|x: ChatMessage| x@)
}

/// What a chat request is built from.
#[derive(Debug, PartialEq)]
pub struct ResponsesApiRequest {
    pub model: String,
    pub instructions: String,
    pub input: Vec<ResponseItem>,
    pub tool_choice: String,
    pub parallel_tool_calls: bool,
}

/// The tool choice of a request, with whether tools may be called in parallel.
#[derive(Debug, PartialEq)]
pub struct ChatToolChoice {
    pub tool_choice: String,
    pub parallel_tool_calls: bool,
}

/// The body of a chat completions request; the request's tools are attached
/// to it as they are.
#[derive(Debug, PartialEq)]
pub struct ChatRequestBody {
    pub model: String,
    pub messages: Vec<ChatMessage>,
    pub stream: bool,
    pub tool_choice: Option<ChatToolChoice>,
}

// ---------------------------------------------------------------------------
// The model of the conversion.

/// The role that an item speaks in, where it speaks at all.
pub open spec fn emitted_role(item: ResponseItemView) -> Option<Seq<char>> {
    match item {
        ResponseItemView::Message { role, .. } => Some(role),
        ResponseItemView::FunctionCall { .. } | ResponseItemView::LocalShellCall { .. }
        | ResponseItemView::CustomToolCall { .. } | ResponseItemView::ToolSearchCall => Some("assistant"@),
        ResponseItemView::FunctionCallOutput { .. } | ResponseItemView::CustomToolCallOutput { .. }
        | ResponseItemView::ToolSearchOutput => Some("tool"@),
        _ => None,
    }
}

/// The role of the last item of `items` that speaks in one.
pub open spec fn last_emitted_role(items: Seq<ResponseItemView>) -> Option<Seq<char>>
    decreases items.len(),
{
    if items.len() == 0 {
        None
    } else {
        match emitted_role(items.last()) {
            Some(r) => Some(r),
            None => last_emitted_role(items.drop_last()),
        }
    }
}

pub open spec fn is_message_with_role(item: ResponseItemView, r: Seq<char>) -> bool {
    item matches ResponseItemView::Message { role, .. } && role == r
}

/// The position of the last user message of `items`.
pub open spec fn last_user_index(items: Seq<ResponseItemView>) -> Option<int>
    decreases items.len(),
{
    if items.len() == 0 {
        None
    } else if is_message_with_role(items.last(), "user"@) {
        Some(items.len() - 1)
    } else {
        last_user_index(items.drop_last())
    }
}

/// The concatenated text of a reasoning item's content.
pub open spec fn reasoning_text(entries: Seq<ReasoningItemContentView>) -> Seq<char>
    decreases entries.len(),
{
    if entries.len() == 0 {
        Seq::empty()
    } else {
        reasoning_text(entries.drop_last()) + match entries.last() {
            ReasoningItemContentView::ReasoningText { text } => text,
            ReasoningItemContentView::Text { text } => text,
        }
    }
}

/// Whether an item is a call that the model made.
pub open spec fn is_call(item: ResponseItemView) -> bool {
    item is FunctionCall || item is LocalShellCall || item is CustomToolCall || item is ToolSearchCall
}

/// The reasoning text that the item at `idx` carries over to a neighbour, if
/// any is carried: only where the conversation does not end on the user, only
/// after the last user message, and only text that is not blank.
pub open spec fn carried_reasoning(items: Seq<ResponseItemView>, idx: int) -> Option<Seq<char>> {
    let open = last_emitted_role(items) != Some("user"@) && match last_user_index(items) {
        Some(u) => idx > u,
        None => true,
    };
    match items[idx] {
        ResponseItemView::Reasoning { content: Some(entries) } => if open && !is_blank(reasoning_text(entries)) {
            Some(reasoning_text(entries))
        } else {
            None
        },
        _ => None,
    }
}

/// The item that the reasoning at `idx` is attached to: the assistant message
/// just before it, or else the call or assistant message just after it.
pub open spec fn reasoning_anchor(items: Seq<ResponseItemView>, idx: int) -> Option<int> {
    if carried_reasoning(items, idx) is Some {
        if idx > 0 && is_message_with_role(items[idx - 1], "assistant"@) {
            Some(idx - 1)
        } else if idx + 1 < items.len() && (is_call(items[idx + 1]) || is_message_with_role(
            items[idx + 1],
            "assistant"@,
        )) {
            Some(idx + 1)
        } else {
            None
        }
    } else {
        None
    }
}

/// The reasoning attached to the item at `k` by the reasoning items before `upto`,
/// in their order.
pub open spec fn anchored_upto(items: Seq<ResponseItemView>, k: int, upto: nat) -> Option<Seq<char>>
    decreases upto,
{
    if upto == 0 {
        None
    } else {
        let prev = anchored_upto(items, k, (upto - 1) as nat);
        if reasoning_anchor(items, upto - 1) == Some(k) {
            let text = carried_reasoning(items, upto - 1).unwrap();
            match prev {
                Some(p) => Some(p + text),
                None => Some(text),
            }
        } else {
            prev
        }
    }
}

/// The reasoning attached to the item at `k`.
pub open spec fn anchored_reasoning(items: Seq<ResponseItemView>, k: int) -> Option<Seq<char>> {
    anchored_upto(items, k, items.len())
}

/// The text of a message: its text parts, concatenated.
pub open spec fn message_text(content: Seq<ContentItemView>) -> Seq<char>
    decreases content.len(),
{
    if content.len() == 0 {
        Seq::empty()
    } else {
        message_text(content.drop_last()) + match content.last() {
            ContentItemView::InputText { text } => text,
            ContentItemView::OutputText { text } => text,
            ContentItemView::InputImage { .. } => Seq::empty(),
        }
    }
}

pub open spec fn has_image(content: Seq<ContentItemView>) -> bool {
    exists|i: int| 0 <= i < content.len() && #[trigger] content[i] is InputImage
}

pub open spec fn content_part(c: ContentItemView) -> ChatContentPartView {
    match c {
        ContentItemView::InputText { text } => ChatContentPartView::Text { text },
        ContentItemView::OutputText { text } => ChatContentPartView::Text { text },
        ContentItemView::InputImage { image_url } => ChatContentPartView::ImageUrl { url: image_url },
    }
}

/// The chat parts of a message's content.
pub open spec fn content_parts(content: Seq<ContentItemView>) -> Seq<ChatContentPartView> {
    content.map_values(|c: ContentItemView| content_part(c))
}

pub open spec fn output_part(c: FunctionCallOutputContentItemView) -> ChatContentPartView {
    match c {
        FunctionCallOutputContentItemView::InputText { text } => ChatContentPartView::Text { text },
        FunctionCallOutputContentItemView::InputImage { image_url } => ChatContentPartView::ImageUrl {
            url: image_url,
        },
    }
}

/// The chat content that a tool output becomes.
pub open spec fn tool_content(body: FunctionCallOutputBodyView) -> ChatToolContentView {
    match body {
        FunctionCallOutputBodyView::Text(t) => ChatToolContentView::Text(t),
        FunctionCallOutputBodyView::ContentItems(items) => ChatToolContentView::Parts(
            items.map_values(|i: FunctionCallOutputContentItemView| output_part(i)),
        ),
    }
}

/// `existing` reasoning with `more` added on a line of its own.
pub open spec fn merged_reasoning(existing: Option<Seq<char>>, more: Option<Seq<char>>) -> Option<Seq<char>> {
    match more {
        None => existing,
        Some(m) => match existing {
            Some(e) => Some(if e.len() == 0 { m } else { e + "\n"@ + m }),
            None => Some(m),
        },
    }
}

/// `messages` with a tool call added: to the last message where that already
/// carries tool calls, else in a new assistant message.
pub open spec fn with_tool_call(
    messages: Seq<ChatMessageView>,
    call: ChatToolCallView,
    reasoning: Option<Seq<char>>,
) -> Seq<ChatMessageView> {
    if messages.len() > 0 && messages.last() is ToolCalls {
        let last = messages.last();
        messages.drop_last().push(
            ChatMessageView::ToolCalls {
                tool_calls: last->tool_calls.push(call),
                reasoning: merged_reasoning(last->ToolCalls_reasoning, reasoning),
            },
        )
    } else {
        messages.push(ChatMessageView::ToolCalls { tool_calls: seq![call], reasoning })
    }
}

/// The messages rendered so far, with the text of the last assistant message.
pub struct RenderState {
    pub messages: Seq<ChatMessageView>,
    pub last_assistant_text: Option<Seq<char>>,
}

/// The state after rendering the item at `idx`.
pub open spec fn render_item(items: Seq<ResponseItemView>, idx: int, st: RenderState) -> RenderState {
    render_step(items[idx], anchored_reasoning(items, idx), st)
}

/// The state after rendering `item`, to which `reasoning` is attached.
pub open spec fn render_step(item: ResponseItemView, reasoning: Option<Seq<char>>, st: RenderState) -> RenderState {
    match item {
        ResponseItemView::Message { role, content } => {
            let text = message_text(content);
            if role == "assistant"@ && st.last_assistant_text == Some(text) {
                st
            } else {
                let message = if role == "assistant"@ {
                    ChatMessageView::Text { role, content: text, reasoning }
                } else if has_image(content) {
                    ChatMessageView::Parts { role, parts: content_parts(content) }
                } else {
                    ChatMessageView::Text { role, content: text, reasoning: None }
                };
                RenderState {
                    messages: st.messages.push(message),
                    last_assistant_text: if role == "assistant"@ { Some(text) } else { st.last_assistant_text },
                }
            }
        },
        ResponseItemView::FunctionCall { name, arguments, call_id } => RenderState {
            messages: with_tool_call(st.messages, ChatToolCallView::Function { id: call_id, name, arguments }, reasoning),
            ..st
        },
        ResponseItemView::LocalShellCall { id, call_id, status, action } => RenderState {
            messages: with_tool_call(
                st.messages,
                ChatToolCallView::LocalShell {
                    id: match call_id {
                        Some(c) => c,
                        None => match id {
                            Some(i) => i,
                            None => Seq::empty(),
                        },
                    },
                    status,
                    action,
                },
                reasoning,
            ),
            ..st
        },
        ResponseItemView::FunctionCallOutput { call_id, output } => RenderState {
            messages: st.messages.push(ChatMessageView::ToolResult { tool_call_id: call_id, content: tool_content(output) }),
            ..st
        },
        ResponseItemView::CustomToolCall { call_id, name, input } => RenderState {
            messages: with_tool_call(st.messages, ChatToolCallView::Custom { id: call_id, name, input }, reasoning),
            ..st
        },
        ResponseItemView::CustomToolCallOutput { call_id, output } => RenderState {
            messages: st.messages.push(ChatMessageView::ToolResult { tool_call_id: call_id, content: tool_content(output) }),
            ..st
        },
        _ => st,
    }
}

/// The state after rendering the first `n` items, starting from `start`.
pub open spec fn render_upto(items: Seq<ResponseItemView>, n: nat, start: Seq<ChatMessageView>) -> RenderState
    decreases n,
{
    if n == 0 {
        RenderState { messages: start, last_assistant_text: None }
    } else {
        render_item(items, n - 1, render_upto(items, (n - 1) as nat, start))
    }
}

/// The messages of the chat request for `instructions` and `items`.
pub open spec fn chat_messages(instructions: Seq<char>, items: Seq<ResponseItemView>) -> Seq<ChatMessageView> {
    let start = if instructions.len() > 0 {
        seq![ChatMessageView::System { content: instructions }]
    } else {
        Seq::empty()
    };
    render_upto(items, items.len(), start).messages
}

// ---------------------------------------------------------------------------
// The conversion.

fn has_role(item: &ResponseItem, role: &str) -> (res: bool)
    ensures
        res == is_message_with_role(item@, role@),
{
    match item {
        ResponseItem::Message { role: r, .. } => str_eq(r.as_str(), role),
        _ => false,
    }
}

/// Whether the last item of `items` that speaks in a role speaks as the user.
fn ends_on_user(items: &Vec<ResponseItem>) -> (res: bool)
    ensures
        res == (last_emitted_role(items_view(items@)) == Some("user"@)),
{
    let ghost all = items_view(items@);
    let n = items.len();
    let mut ends_user = false;
    let mut i: usize = 0;
    while i < n
        invariant
            n == items@.len(),
            all == items_view(items@),
            i <= n,
            ends_user == (last_emitted_role(all.take(i as int)) == Some("user"@)),
        decreases n - i,
    {
        proof {
            reveal_strlit("user");
            reveal_strlit("assistant");
            reveal_strlit("tool");
            assert(all.take(i + 1).drop_last() == all.take(i as int));
            assert(all.take(i + 1).last() == items@[i as int]@);
            assert(last_emitted_role(all.take(i + 1)) == match emitted_role(items@[i as int]@) {
                Some(r) => Some(r),
                None => last_emitted_role(all.take(i as int)),
            });
            assert("assistant"@.len() == 9);
            assert("assistant"@ != "user"@);
            assert("tool"@[0] != "user"@[0]);
            assert("tool"@ != "user"@);
        }
        match &items[i] {
            ResponseItem::Message { role, .. } => {
                ends_user = str_eq(role.as_str(), "user");
            },
            ResponseItem::FunctionCall { .. } | ResponseItem::LocalShellCall { .. }
            | ResponseItem::CustomToolCall { .. } | ResponseItem::ToolSearchCall => {
                ends_user = false;
            },
            ResponseItem::FunctionCallOutput { .. } | ResponseItem::CustomToolCallOutput { .. }
            | ResponseItem::ToolSearchOutput => {
                ends_user = false;
            },
            _ => {},
        }
        i = i + 1;
    }
    proof { assert(all.take(n as int) == all); }
    ends_user
}

/// The position of the last user message of `items`.
fn find_last_user_index(items: &Vec<ResponseItem>) -> (res: Option<usize>)
    ensures
        match res {
            Some(u) => last_user_index(items_view(items@)) == Some(u as int),
            None => last_user_index(items_view(items@)) is None,
        },
{
    let ghost all = items_view(items@);
    let n = items.len();
    let mut found: Option<usize> = None;
    let mut i: usize = 0;
    while i < n
        invariant
            n == items@.len(),
            all == items_view(items@),
            i <= n,
            match found {
                Some(u) => last_user_index(all.take(i as int)) == Some(u as int),
                None => last_user_index(all.take(i as int)) is None,
            },
        decreases n - i,
    {
        proof {
            assert(all.take(i + 1).drop_last() == all.take(i as int));
            assert(all.take(i + 1).last() == items@[i as int]@);
        }
        if has_role(&items[i], "user") {
            found = Some(i);
        }
        i = i + 1;
    }
    proof { assert(all.take(n as int) == all); }
    found
}

/// The concatenated text of a reasoning item's content.
fn reasoning_text_of(entries: &Vec<ReasoningItemContent>) -> (res: String)
    ensures
        res@ == reasoning_text(reasoning_content_view(entries@)),
{
    let ghost all = reasoning_content_view(entries@);
    let mut text = owned("");
    proof { reveal_strlit(""); }
    let n = entries.len();
    let mut i: usize = 0;
    while i < n
        invariant
            n == entries@.len(),
            all == reasoning_content_view(entries@),
            i <= n,
            text@ == reasoning_text(all.take(i as int)),
        decreases n - i,
    {
        proof {
            assert(all.take(i + 1).drop_last() == all.take(i as int));
            assert(all.take(i + 1).last() == entries@[i as int]@);
        }
        match &entries[i] {
            ReasoningItemContent::ReasoningText { text: segment } => push_str(&mut text, segment.as_str()),
            ReasoningItemContent::Text { text: segment } => push_str(&mut text, segment.as_str()),
        }
        i = i + 1;
    }
    proof { assert(all.take(n as int) == all); }
    text
}

/// Whether an item is a call that the model made.
fn is_call_item(item: &ResponseItem) -> (res: bool)
    ensures
        res == is_call(item@),
{
    match item {
        ResponseItem::FunctionCall { .. } | ResponseItem::LocalShellCall { .. }
        | ResponseItem::CustomToolCall { .. } | ResponseItem::ToolSearchCall => true,
        _ => false,
    }
}

/// For each item, the reasoning attached to it.
fn collect_anchored_reasoning(items: &Vec<ResponseItem>) -> (res: Vec<Option<String>>)
    ensures
        res@.len() == items@.len(),
        forall|k: int| 0 <= k < res@.len() ==> #[trigger] opt_string_view(res@[k]) == anchored_reasoning(items_view(items@), k),
{
    let ghost all = items_view(items@);
    let n = items.len();
    let mut anchors: Vec<Option<String>> = Vec::new();
    let mut j: usize = 0;
    while j < n
        invariant
            j <= n,
            anchors@.len() == j,
            forall|k: int| 0 <= k < j ==> #[trigger] anchors@[k] is None,
        decreases n - j,
    {
        anchors.push(None);
        j = j + 1;
    }
    let ends_user = ends_on_user(items);
    let last_user = find_last_user_index(items);
    let mut idx: usize = 0;
    while idx < n
        invariant
            n == items@.len(),
            all == items_view(items@),
            idx <= n,
            anchors@.len() == n,
            ends_user == (last_emitted_role(all) == Some("user"@)),
            match last_user {
                Some(u) => last_user_index(all) == Some(u as int),
                None => last_user_index(all) is None,
            },
            forall|k: int| 0 <= k < n ==> #[trigger] opt_string_view(anchors@[k]) == anchored_upto(all, k, idx as nat),
        decreases n - idx,
    {
        let ghost before = anchors@;
        let mut target: Option<usize> = None;
        let mut carried: Option<String> = None;
        let after_user = match last_user {
            Some(u) => idx > u,
            None => true,
        };
        if !ends_user && after_user {
            if let ResponseItem::Reasoning { content: Some(entries) } = &items[idx] {
                let text = reasoning_text_of(entries);
                let trimmed = str_trim(text.as_str());
                proof { lemma_trim_empty_iff_blank(text@); }
                if !trimmed.is_empty() {
                    if idx > 0 && has_role(&items[idx - 1], "assistant") {
                        target = Some(idx - 1);
                    } else if idx + 1 < n && (is_call_item(&items[idx + 1]) || has_role(&items[idx + 1], "assistant")) {
                        target = Some(idx + 1);
                    }
                    carried = Some(text);
                }
            }
        }
        proof {
            assert(all[idx as int] == items@[idx as int]@);
            if idx > 0 { assert(all[idx - 1] == items@[idx - 1]@); }
            if idx + 1 < n { assert(all[idx + 1] == items@[idx + 1]@); }
            assert(opt_string_view(carried) == carried_reasoning(all, idx as int));
            assert(match target {
                Some(t) => reasoning_anchor(all, idx as int) == Some(t as int),
                None => reasoning_anchor(all, idx as int) is None,
            });
        }
        if let Some(t) = target {
            if let Some(text) = carried {
                let updated = match &anchors[t] {
                    Some(existing) => {
                        let mut joined = existing.clone();
                        push_str(&mut joined, text.as_str());
                        joined
                    },
                    None => text,
                };
                anchors.set(t, Some(updated));
            }
        }
        proof {
            assert forall|k: int| 0 <= k < n implies #[trigger] opt_string_view(anchors@[k]) == anchored_upto(all, k, (idx + 1) as nat) by {
                assert(opt_string_view(before[k]) == anchored_upto(all, k, idx as nat));
            }
        }
        idx = idx + 1;
    }
    anchors
}

/// The text, the parts and whether an image is shown, of a message's content.
fn render_content(content: &Vec<ContentItem>) -> (res: (String, Vec<ChatContentPart>, bool))
    ensures
        res.0@ == message_text(content_view(content@)),
        parts_view(res.1@) == content_parts(content_view(content@)),
        res.2 == has_image(content_view(content@)),
{
    let ghost all = content_view(content@);
    let mut text = owned("");
    proof { reveal_strlit(""); }
    let mut parts: Vec<ChatContentPart> = Vec::new();
    let mut saw_image = false;
    let n = content.len();
    let mut i: usize = 0;
    while i < n
        invariant
            n == content@.len(),
            all == content_view(content@),
            i <= n,
            text@ == message_text(all.take(i as int)),
            parts_view(parts@) == all.take(i as int).map_values(|c: ContentItemView| content_part(c)),
            saw_image == has_image(all.take(i as int)),
        decreases n - i,
    {
        let ghost prev_parts = parts@;
        match &content[i] {
            ContentItem::InputText { text: value } | ContentItem::OutputText { text: value } => {
                push_str(&mut text, value.as_str());
                parts.push(ChatContentPart::Text { text: value.clone() });
            },
            ContentItem::InputImage { image_url } => {
                saw_image = true;
                parts.push(ChatContentPart::ImageUrl { url: image_url.clone() });
            },
        }
        proof {
            let t1 = all.take(i + 1);
            assert(t1.drop_last() == all.take(i as int));
            assert(t1.last() == content@[i as int]@);
            assert(parts@ == prev_parts.push(parts@.last()));
            assert(parts_view(parts@) =~= parts_view(prev_parts).push(parts@.last()@));
            assert(t1.map_values(|c: ContentItemView| content_part(c)) =~= all.take(i as int).map_values(
                |c: ContentItemView| content_part(c),
            ).push(content_part(t1.last())));
            if has_image(t1) {
                let j = choose|j: int| 0 <= j < t1.len() && #[trigger] t1[j] is InputImage;
                if j < i {
                    assert(all.take(i as int)[j] is InputImage);
                }
            }
            if has_image(all.take(i as int)) {
                let j = choose|j: int| 0 <= j < i && #[trigger] all.take(i as int)[j] is InputImage;
                assert(t1[j] is InputImage);
            }
            if content@[i as int] is InputImage {
                assert(t1[i as int] is InputImage);
            }
        }
        i = i + 1;
    }
    proof { assert(all.take(n as int) == all); }
    (text, parts, saw_image)
}

/// The chat content that a tool output becomes: its text, or its parts.
pub fn function_call_output_json(output: &FunctionCallOutputBody) -> (res: ChatToolContent)
    ensures
        res@ == tool_content(output@),
{
    match output {
        FunctionCallOutputBody::Text(content) => ChatToolContent::Text(content.clone()),
        FunctionCallOutputBody::ContentItems(items) => {
            let ghost all = items@.map_values(|i: FunctionCallOutputContentItem| i@);
            let mut parts: Vec<ChatContentPart> = Vec::new();
            let n = items.len();
            let mut i: usize = 0;
            while i < n
                invariant
                    n == items@.len(),
                    all == items@.map_values(|i: FunctionCallOutputContentItem| i@),
                    i <= n,
                    parts_view(parts@) == all.take(i as int).map_values(
                        |c: FunctionCallOutputContentItemView| output_part(c),
                    ),
                decreases n - i,
            {
                let ghost prev = parts@;
                match &items[i] {
                    FunctionCallOutputContentItem::InputText { text } => parts.push(
                        ChatContentPart::Text { text: text.clone() },
                    ),
                    FunctionCallOutputContentItem::InputImage { image_url } => parts.push(
                        ChatContentPart::ImageUrl { url: image_url.clone() },
                    ),
                }
                proof {
                    let t1 = all.take(i + 1);
                    assert(t1.drop_last() == all.take(i as int));
                    assert(t1.last() == items@[i as int]@);
                    assert(parts_view(parts@) =~= parts_view(prev).push(parts@.last()@));
                    assert(t1.map_values(|c: FunctionCallOutputContentItemView| output_part(c))
                        =~= all.take(i as int).map_values(|c: FunctionCallOutputContentItemView| output_part(c)).push(
                        output_part(t1.last()),
                    ));
                }
                i = i + 1;
            }
            proof { assert(all.take(n as int) == all); }
            ChatToolContent::Parts(parts)
        },
    }
}

/// An assistant message with null content that carries `tool_call`.
fn new_tool_call_message(tool_call: ChatToolCall, reasoning: Option<&str>) -> (res: ChatMessage)
    ensures
        res@ == (ChatMessageView::ToolCalls {
            tool_calls: seq![tool_call@],
            reasoning: match reasoning {
                Some(r) => Some(r@),
                None => None,
            },
        }),
{
    let mut tool_calls: Vec<ChatToolCall> = Vec::new();
    tool_calls.push(tool_call);
    proof { assert(calls_view(tool_calls@) =~= seq![tool_call@]); }
    ChatMessage::ToolCalls {
        tool_calls,
        reasoning: match reasoning {
            Some(r) => Some(owned(r)),
            None => None,
        },
    }
}

/// Adds a tool call to `messages`: to the last message where that already
/// carries tool calls (its reasoning gaining `reasoning` on a line of its own),
/// else in a new assistant message with null content.
pub fn push_tool_call_message(messages: &mut Vec<ChatMessage>, tool_call: ChatToolCall, reasoning: Option<&str>)
    ensures
        messages_view(final(messages)@) == with_tool_call(
            messages_view(old(messages)@),
            tool_call@,
            match reasoning {
                Some(r) => Some(r@),
                None => None,
            },
        ),
{
    let ghost old_msgs = messages@;
    let ghost r_view: Option<Seq<char>> = match reasoning {
        Some(r) => Some(r@),
        None => None,
    };
    proof { reveal_strlit("\n"); }
    match messages.pop() {
        Some(ChatMessage::ToolCalls { mut tool_calls, reasoning: existing }) => {
            let ghost prev_calls = tool_calls@;
            tool_calls.push(tool_call);
            let merged = match reasoning {
                None => existing,
                Some(r) => match existing {
                    Some(mut e) => {
                        if !e.as_str().is_empty() {
                            push_str(&mut e, "\n");
                        }
                        push_str(&mut e, r);
                        Some(e)
                    },
                    None => Some(owned(r)),
                },
            };
            proof {
                assert(opt_string_view(merged) == merged_reasoning(opt_string_view(existing), r_view));
            }
            messages.push(ChatMessage::ToolCalls { tool_calls, reasoning: merged });
            proof {
                assert(messages_view(old_msgs).last() == old_msgs.last()@);
                assert(calls_view(tool_calls@) =~= calls_view(prev_calls).push(tool_call@));
                assert(messages_view(old_msgs).drop_last() =~= messages_view(messages@.drop_last()));
                assert(messages_view(messages@) =~= messages_view(old_msgs).drop_last().push(messages@.last()@));
            }
        },
        Some(other) => {
            messages.push(other);
            messages.push(new_tool_call_message(tool_call, reasoning));
            proof {
                assert(messages_view(old_msgs).last() == old_msgs.last()@);
                assert(!(messages_view(old_msgs).last() is ToolCalls));
                assert(messages@.drop_last() == old_msgs);
                assert(messages_view(messages@) =~= messages_view(old_msgs).push(messages@.last()@));
            }
        },
        None => {
            messages.push(new_tool_call_message(tool_call, reasoning));
            proof {
                assert(messages_view(messages@) =~= messages_view(old_msgs).push(messages@.last()@));
            }
        },
    }
}

/// The chat message that a message item becomes, with the text of the last
/// assistant message after it; no message where it is an assistant message
/// that repeats `last_assistant_text`.
fn render_message(
    role: &String,
    content: &Vec<ContentItem>,
    reasoning: Option<&str>,
    last_assistant_text: &Option<String>,
) -> (res: (Option<ChatMessage>, Option<String>))
    ensures
        ({
            let st = RenderState { messages: Seq::empty(), last_assistant_text: opt_string_view(*last_assistant_text) };
            let next = render_step(
                ResponseItemView::Message { role: role@, content: content_view(content@) },
                match reasoning {
                    Some(r) => Some(r@),
                    None => None,
                },
                st,
            );
            &&& match res.0 {
                Some(m) => next.messages == seq![m@],
                None => next.messages.len() == 0,
            }
            &&& opt_string_view(res.1) == next.last_assistant_text
        }),
{
    let (text, parts, saw_image) = render_content(content);
    let is_assistant = str_eq(role.as_str(), "assistant");
    let repeated = is_assistant && match last_assistant_text {
        Some(previous) => str_eq(previous.as_str(), text.as_str()),
        None => false,
    };
    if repeated {
        return (None, clone_opt_string(last_assistant_text));
    }
    let new_last = if is_assistant {
        Some(text.clone())
    } else {
        clone_opt_string(last_assistant_text)
    };
    let message = if is_assistant {
        ChatMessage::Text {
            role: role.clone(),
            content: text,
            reasoning: match reasoning {
                Some(r) => Some(owned(r)),
                None => None,
            },
        }
    } else if saw_image {
        ChatMessage::Parts { role: role.clone(), parts }
    } else {
        ChatMessage::Text { role: role.clone(), content: text, reasoning: None }
    };
    (Some(message), new_last)
}

/// Renders one item onto `messages`, with `reasoning` attached to it;
/// `last_assistant_text` is the text of the last assistant message rendered.
fn render_item_into(
    item: &ResponseItem,
    reasoning: Option<&str>,
    messages: Vec<ChatMessage>,
    last_assistant_text: Option<String>,
) -> (res: (Vec<ChatMessage>, Option<String>))
    ensures
        ({
            let next = render_step(
                item@,
                match reasoning {
                    Some(r) => Some(r@),
                    None => None,
                },
                RenderState {
                    messages: messages_view(messages@),
                    last_assistant_text: opt_string_view(last_assistant_text),
                },
            );
            &&& messages_view(res.0@) == next.messages
            &&& opt_string_view(res.1) == next.last_assistant_text
        }),
{
    let mut messages = messages;
    let mut last_assistant_text = last_assistant_text;
    let ghost old_msgs = messages@;
    let ghost rv: Option<Seq<char>> = match reasoning {
        Some(r) => Some(r@),
        None => None,
    };
    let ghost st = RenderState { messages: messages_view(old_msgs), last_assistant_text: opt_string_view(last_assistant_text) };
    let ghost expected = render_step(item@, rv, st);
    proof {
        reveal_strlit("");
        assert(""@ =~= Seq::<char>::empty());
    }
    match item {
        ResponseItem::Message { role, content } => {
            let (message, new_last) = render_message(role, content, reasoning, &last_assistant_text);
            proof {
                let st0 = RenderState { messages: Seq::empty(), ..st };
                assert(expected.last_assistant_text == render_step(item@, rv, st0).last_assistant_text);
                assert(expected.messages =~= messages_view(old_msgs) + render_step(item@, rv, st0).messages);
            }
            if let Some(m) = message {
                let ghost mv = m@;
                messages.push(m);
                proof { assert(messages_view(messages@) =~= messages_view(old_msgs) + seq![mv]); }
            } else {
                proof { assert(messages_view(messages@) =~= messages_view(old_msgs) + Seq::<ChatMessageView>::empty()); }
            }
            last_assistant_text = new_last;
        },
        ResponseItem::FunctionCall { name, arguments, call_id } => {
            push_tool_call_message(
                &mut messages,
                ChatToolCall::Function { id: call_id.clone(), name: name.clone(), arguments: arguments.clone() },
                reasoning,
            );
            proof { assert(messages_view(messages@) == expected.messages); }
        },
        ResponseItem::LocalShellCall { id, call_id, status, action } => {
            let shown_id = match call_id {
                Some(c) => c.clone(),
                None => match id {
                    Some(i) => i.clone(),
                    None => owned(""),
                },
            };
            push_tool_call_message(
                &mut messages,
                ChatToolCall::LocalShell { id: shown_id, status: *status, action: action.duplicate() },
                reasoning,
            );
            proof { assert(messages_view(messages@) == expected.messages); }
        },
        ResponseItem::FunctionCallOutput { call_id, output } => {
            messages.push(ChatMessage::ToolResult { tool_call_id: call_id.clone(), content: function_call_output_json(output) });
            proof { assert(messages_view(messages@) =~= messages_view(old_msgs).push(messages@.last()@)); }
            proof { assert(messages_view(messages@) == expected.messages); }
        },
        ResponseItem::CustomToolCall { call_id, name, input } => {
            push_tool_call_message(
                &mut messages,
                ChatToolCall::Custom { id: call_id.clone(), name: name.clone(), input: input.clone() },
                reasoning,
            );
            proof { assert(messages_view(messages@) == expected.messages); }
        },
        ResponseItem::CustomToolCallOutput { call_id, output } => {
            messages.push(ChatMessage::ToolResult { tool_call_id: call_id.clone(), content: function_call_output_json(output) });
            proof { assert(messages_view(messages@) =~= messages_view(old_msgs).push(messages@.last()@)); }
            proof { assert(messages_view(messages@) == expected.messages); }
        },
        _ => {
            proof { assert(messages_view(messages@) == expected.messages); }
        },
    }
    (messages, last_assistant_text)
}

/// Builds the body of a chat completions request from a responses request:
/// the instructions as a system message; each message, call and tool output
/// as a chat message (consecutive calls share one assistant message, and an
/// assistant message that repeats the last assistant text is dropped); and
/// reasoning attached to the assistant message or call next to it.
pub fn build_chat_request(request: &ResponsesApiRequest) -> (res: ChatRequestBody)
    ensures
        res.model@ == request.model@,
        messages_view(res.messages@) == chat_messages(request.instructions@, items_view(request.input@)),
        res.stream,
        match res.tool_choice {
            Some(c) => request.tool_choice@.len() > 0 && c.tool_choice@ == request.tool_choice@
                && c.parallel_tool_calls == request.parallel_tool_calls,
            None => request.tool_choice@.len() == 0,
        },
{
    let ghost all = items_view(request.input@);
    let mut messages: Vec<ChatMessage> = Vec::new();
    if !request.instructions.as_str().is_empty() {
        messages.push(ChatMessage::System { content: request.instructions.clone() });
    }
    let ghost start = messages_view(messages@);
    proof {
        assert(start =~= if request.instructions@.len() > 0 {
            seq![ChatMessageView::System { content: request.instructions@ }]
        } else {
            Seq::empty()
        });
    }
    let anchors = collect_anchored_reasoning(&request.input);
    let mut last_assistant_text: Option<String> = None;
    let n = request.input.len();
    let mut idx: usize = 0;
    while idx < n
        invariant
            n == request.input@.len(),
            all == items_view(request.input@),
            anchors@.len() == n,
            forall|k: int| 0 <= k < n ==> #[trigger] opt_string_view(anchors@[k]) == anchored_reasoning(all, k),
            idx <= n,
            messages_view(messages@) == render_upto(all, idx as nat, start).messages,
            opt_string_view(last_assistant_text) == render_upto(all, idx as nat, start).last_assistant_text,
        decreases n - idx,
    {
        let reasoning: Option<&str> = match &anchors[idx] {
            Some(r) => Some(r.as_str()),
            None => None,
        };
        proof {
            assert(opt_string_view(anchors@[idx as int]) == anchored_reasoning(all, idx as int));
            assert(all[idx as int] == request.input@[idx as int]@);
        }
        let (next_messages, next_last) = render_item_into(&request.input[idx], reasoning, messages, last_assistant_text);
        messages = next_messages;
        last_assistant_text = next_last;
        idx = idx + 1;
    }
    let tool_choice = if !request.tool_choice.as_str().is_empty() {
        Some(ChatToolChoice {
            tool_choice: request.tool_choice.clone(),
            parallel_tool_calls: request.parallel_tool_calls,
        })
    } else {
        None
    };
    ChatRequestBody { model: request.model.clone(), messages, stream: true, tool_choice }
}

// ---------------------------------------------------------------------------
// Laws of the conversion.

/// Whether a message carries reasoning.
pub open spec fn carries_reasoning(m: ChatMessageView) -> bool {
    match m {
        ChatMessageView::Text { reasoning, .. } => reasoning is Some,
        ChatMessageView::ToolCalls { reasoning, .. } => reasoning is Some,
        _ => false,
    }
}

/// The number of tool replies among `msgs`.
pub open spec fn count_tool_results(msgs: Seq<ChatMessageView>) -> nat
    decreases msgs.len(),
{
    if msgs.len() == 0 {
        0
    } else {
        count_tool_results(msgs.drop_last()) + if msgs.last() is ToolResult { 1nat } else { 0nat }
    }
}

/// The number of tool outputs among `items`.
pub open spec fn count_tool_outputs(items: Seq<ResponseItemView>) -> nat
    decreases items.len(),
{
    if items.len() == 0 {
        0
    } else {
        count_tool_outputs(items.drop_last()) + if items.last() is FunctionCallOutput
            || items.last() is CustomToolCallOutput { 1nat } else { 0nat }
    }
}

/// No two neighbouring messages both carry tool calls.
pub open spec fn calls_grouped(msgs: Seq<ChatMessageView>) -> bool {
    forall|i: int| 0 <= i < msgs.len() - 1 ==> !(#[trigger] msgs[i] is ToolCalls && msgs[i + 1] is ToolCalls)
}

pub open spec fn start_messages(instructions: Seq<char>) -> Seq<ChatMessageView> {
    if instructions.len() > 0 {
        seq![ChatMessageView::System { content: instructions }]
    } else {
        Seq::empty()
    }
}

proof fn lemma_anchored_none_upto(items: Seq<ResponseItemView>, k: int, upto: nat)
    requires
        last_emitted_role(items) == Some("user"@),
    ensures
        anchored_upto(items, k, upto) is None,
    decreases upto,
{
    if upto > 0 {
        lemma_anchored_none_upto(items, k, (upto - 1) as nat);
    }
}

proof fn lemma_count_push(msgs: Seq<ChatMessageView>, m: ChatMessageView)
    ensures
        count_tool_results(msgs.push(m)) == count_tool_results(msgs) + if m is ToolResult { 1nat } else { 0nat },
{
    assert(msgs.push(m).drop_last() == msgs);
}

/// How a step changes the messages: it adds one, or it replaces the last,
/// which carries tool calls, by another that does.
proof fn lemma_render_step_shape(item: ResponseItemView, reasoning: Option<Seq<char>>, st: RenderState)
    ensures
        ({
            let msgs = st.messages;
            let next = render_step(item, reasoning, st).messages;
            ||| (next == msgs && !(item is FunctionCallOutput || item is CustomToolCallOutput))
            ||| (next.len() == msgs.len() + 1 && next.drop_last() == msgs && (next.last() is ToolCalls ==> is_call(item))
                && (next.last() is ToolResult <==> (item is FunctionCallOutput || item is CustomToolCallOutput))
                && (next.last() is ToolCalls ==> msgs.len() == 0 || !(msgs.last() is ToolCalls))
                && (next.last() is Text ==> (next.last()->Text_reasoning is Some ==> reasoning is Some))
                && (next.last() is ToolCalls ==> (next.last()->ToolCalls_reasoning is Some ==> reasoning is Some)))
            ||| (msgs.len() > 0 && msgs.last() is ToolCalls && next.len() == msgs.len() && next.drop_last()
                == msgs.drop_last() && next.last() is ToolCalls && is_call(item)
                && (next.last()->ToolCalls_reasoning is Some ==> (reasoning is Some || msgs.last()->ToolCalls_reasoning is Some)))
        }),
{
    let msgs = st.messages;
    let next = render_step(item, reasoning, st).messages;
    if next != msgs {
        if is_call(item) && msgs.len() > 0 && msgs.last() is ToolCalls {
            assert(next.drop_last() == msgs.drop_last());
        } else {
            assert(next.drop_last() == msgs);
        }
    }
}

proof fn lemma_render_step_keeps(item: ResponseItemView, reasoning: Option<Seq<char>>, st: RenderState)
    ensures
        ({
            let next = render_step(item, reasoning, st);
            &&& count_tool_results(next.messages) == count_tool_results(st.messages)
                + if item is FunctionCallOutput || item is CustomToolCallOutput { 1nat } else { 0nat }
            &&& calls_grouped(st.messages) ==> calls_grouped(next.messages)
            &&& next.messages.len() >= st.messages.len()
            &&& (st.messages.len() > 0 && !(st.messages[0] is ToolCalls)) ==> next.messages[0] == st.messages[0]
            &&& reasoning is None && (forall|i: int| 0 <= i < st.messages.len() ==> !carries_reasoning(#[trigger] st.messages[i]))
                ==> (forall|i: int| 0 <= i < next.messages.len() ==> !carries_reasoning(#[trigger] next.messages[i]))
        }),
{
    lemma_render_step_shape(item, reasoning, st);
    let msgs = st.messages;
    let next = render_step(item, reasoning, st).messages;
    if next == msgs {
    } else if next.len() == msgs.len() + 1 {
        assert(next == msgs.push(next.last()));
        lemma_count_push(msgs, next.last());
        if calls_grouped(msgs) {
            assert forall|i: int| 0 <= i < next.len() - 1 implies !(#[trigger] next[i] is ToolCalls && next[i + 1] is ToolCalls) by {
                assert(next[i] == msgs[i]);
                if i + 1 < next.len() - 1 {
                    assert(next[i + 1] == msgs[i + 1]);
                }
            }
        }
        if msgs.len() > 0 {
            assert(next[0] == msgs[0]);
        }
        if reasoning is None && (forall|i: int| 0 <= i < msgs.len() ==> !carries_reasoning(#[trigger] msgs[i])) {
            assert forall|i: int| 0 <= i < next.len() implies !carries_reasoning(#[trigger] next[i]) by {
                if i < msgs.len() {
                    assert(next[i] == msgs[i]);
                }
            }
        }
    } else {
        let d = msgs.drop_last();
        assert(next == d.push(next.last()));
        assert(msgs == d.push(msgs.last()));
        lemma_count_push(d, next.last());
        lemma_count_push(d, msgs.last());
        if calls_grouped(msgs) {
            assert forall|i: int| 0 <= i < next.len() - 1 implies !(#[trigger] next[i] is ToolCalls && next[i + 1] is ToolCalls) by {
                assert(next[i] == msgs[i]);
                if i + 1 < next.len() - 1 {
                    assert(next[i + 1] == msgs[i + 1]);
                } else {
                    assert(msgs[i + 1] is ToolCalls);
                }
            }
        }
        if msgs.len() > 0 && !(msgs[0] is ToolCalls) {
            assert(msgs.len() > 1);
            assert(next[0] == msgs[0]);
        }
        if reasoning is None && (forall|i: int| 0 <= i < msgs.len() ==> !carries_reasoning(#[trigger] msgs[i])) {
            assert(!carries_reasoning(msgs[msgs.len() - 1]));
            assert forall|i: int| 0 <= i < next.len() implies !carries_reasoning(#[trigger] next[i]) by {
                if i < next.len() - 1 {
                    assert(next[i] == msgs[i]);
                }
            }
        }
    }
}

proof fn lemma_render_upto_keeps(items: Seq<ResponseItemView>, n: nat, start: Seq<ChatMessageView>)
    requires
        n <= items.len(),
    ensures
        ({
            let r = render_upto(items, n, start);
            &&& count_tool_results(r.messages) == count_tool_results(start) + count_tool_outputs(items.take(n as int))
            &&& calls_grouped(start) ==> calls_grouped(r.messages)
            &&& r.messages.len() >= start.len()
            &&& (start.len() > 0 && !(start[0] is ToolCalls)) ==> r.messages[0] == start[0]
            &&& (last_emitted_role(items) == Some("user"@) && (forall|i: int| 0 <= i < start.len() ==> !carries_reasoning(#[trigger] start[i])))
                ==> (forall|i: int| 0 <= i < r.messages.len() ==> !carries_reasoning(#[trigger] r.messages[i]))
        }),
    decreases n,
{
    if n > 0 {
        lemma_render_upto_keeps(items, (n - 1) as nat, start);
        let prev = render_upto(items, (n - 1) as nat, start);
        lemma_render_step_keeps(items[n - 1], anchored_reasoning(items, n - 1), prev);
        assert(items.take(n as int).drop_last() == items.take(n - 1));
        assert(items.take(n as int).last() == items[n - 1]);
        if last_emitted_role(items) == Some("user"@) {
            lemma_anchored_none_upto(items, n - 1, items.len());
        }
    } else {
        assert(items.take(0) =~= Seq::<ResponseItemView>::empty());
    }
}

/// Where the conversation ends on the user, no message carries reasoning.
pub proof fn law_no_reasoning_after_user_turn(instructions: Seq<char>, items: Seq<ResponseItemView>)
    requires
        last_emitted_role(items) == Some("user"@),
    ensures
        forall|i: int| 0 <= i < chat_messages(instructions, items).len()
            ==> !carries_reasoning(#[trigger] chat_messages(instructions, items)[i]),
{
    lemma_render_upto_keeps(items, items.len(), start_messages(instructions));
}

/// Every tool output becomes exactly one tool reply.
pub proof fn law_one_reply_per_tool_output(instructions: Seq<char>, items: Seq<ResponseItemView>)
    ensures
        count_tool_results(chat_messages(instructions, items)) == count_tool_outputs(items),
{
    let start = start_messages(instructions);
    lemma_render_upto_keeps(items, items.len(), start);
    assert(items.take(items.len() as int) == items);
    if instructions.len() > 0 {
        assert(start.drop_last() =~= Seq::<ChatMessageView>::empty());
        assert(count_tool_results(start) == count_tool_results(start.drop_last()));
    }
    assert(count_tool_results(start) == 0);
}

/// Calls that follow one another share one assistant message: no two
/// neighbouring messages both carry tool calls.
pub proof fn law_consecutive_calls_share_a_message(instructions: Seq<char>, items: Seq<ResponseItemView>)
    ensures
        calls_grouped(chat_messages(instructions, items)),
{
    lemma_render_upto_keeps(items, items.len(), start_messages(instructions));
}

/// The instructions, where there are any, come first as the system message.
pub proof fn law_instructions_first(instructions: Seq<char>, items: Seq<ResponseItemView>)
    requires
        instructions.len() > 0,
    ensures
        chat_messages(instructions, items).len() > 0,
        chat_messages(instructions, items)[0] == (ChatMessageView::System { content: instructions }),
{
    lemma_render_upto_keeps(items, items.len(), start_messages(instructions));
}

/// Whether a message is an assistant message with text content.
pub open spec fn is_assistant_text(m: ChatMessageView) -> bool {
    m matches ChatMessageView::Text { role, .. } && role == "assistant"@
}

/// The text of the last assistant message of `msgs`.
pub open spec fn last_assistant_text_in(msgs: Seq<ChatMessageView>) -> Option<Seq<char>>
    decreases msgs.len(),
{
    if msgs.len() == 0 {
        None
    } else if is_assistant_text(msgs.last()) {
        Some(msgs.last()->Text_content)
    } else {
        last_assistant_text_in(msgs.drop_last())
    }
}

/// No assistant message repeats the text of the assistant message before it.
pub open spec fn no_repeated_assistant_text(msgs: Seq<ChatMessageView>) -> bool {
    forall|j: int| 0 <= j < msgs.len() && #[trigger] is_assistant_text(msgs[j])
        ==> last_assistant_text_in(msgs.take(j)) != Some(msgs[j]->Text_content)
}

proof fn lemma_push_other(msgs: Seq<ChatMessageView>, m: ChatMessageView)
    requires
        !is_assistant_text(m),
    ensures
        last_assistant_text_in(msgs.push(m)) == last_assistant_text_in(msgs),
        no_repeated_assistant_text(msgs) ==> no_repeated_assistant_text(msgs.push(m)),
{
    let m2 = msgs.push(m);
    assert(m2.drop_last() == msgs);
    if no_repeated_assistant_text(msgs) {
        assert forall|j: int| 0 <= j < m2.len() && #[trigger] is_assistant_text(m2[j]) implies last_assistant_text_in(m2.take(j))
            != Some(m2[j]->Text_content) by {
            assert(j < msgs.len());
            assert(m2.take(j) == msgs.take(j));
            assert(m2[j] == msgs[j]);
        }
    }
}

proof fn lemma_render_step_no_repeat(item: ResponseItemView, reasoning: Option<Seq<char>>, st: RenderState)
    requires
        st.last_assistant_text == last_assistant_text_in(st.messages),
        no_repeated_assistant_text(st.messages),
    ensures
        ({
            let next = render_step(item, reasoning, st);
            &&& next.last_assistant_text == last_assistant_text_in(next.messages)
            &&& no_repeated_assistant_text(next.messages)
        }),
{
    lemma_render_step_shape(item, reasoning, st);
    let msgs = st.messages;
    let next = render_step(item, reasoning, st);
    if next.messages == msgs {
    } else if next.messages.len() == msgs.len() + 1 {
        let m = next.messages.last();
        assert(next.messages == msgs.push(m));
        if is_assistant_text(m) {
            let m2 = msgs.push(m);
            assert(m2.drop_last() == msgs);
            assert(item is Message);
            assert forall|j: int| 0 <= j < m2.len() && #[trigger] is_assistant_text(m2[j]) implies last_assistant_text_in(m2.take(j))
                != Some(m2[j]->Text_content) by {
                if j < msgs.len() {
                    assert(m2.take(j) == msgs.take(j));
                    assert(m2[j] == msgs[j]);
                } else {
                    assert(m2.take(j) == msgs);
                }
            }
        } else {
            lemma_push_other(msgs, m);
        }
    } else {
        let d = msgs.drop_last();
        let m = next.messages.last();
        assert(next.messages == d.push(m));
        assert(msgs == d.push(msgs.last()));
        lemma_push_other(d, m);
        lemma_push_other(d, msgs.last());
        if no_repeated_assistant_text(msgs) {
            assert forall|j: int| 0 <= j < d.len() && #[trigger] is_assistant_text(d[j]) implies last_assistant_text_in(d.take(j))
                != Some(d[j]->Text_content) by {
                assert(d.take(j) == msgs.take(j));
                assert(d[j] == msgs[j]);
            }
        }
    }
}

proof fn lemma_render_upto_no_repeat(items: Seq<ResponseItemView>, n: nat, start: Seq<ChatMessageView>)
    requires
        last_assistant_text_in(start) is None,
        no_repeated_assistant_text(start),
    ensures
        render_upto(items, n, start).last_assistant_text == last_assistant_text_in(render_upto(items, n, start).messages),
        no_repeated_assistant_text(render_upto(items, n, start).messages),
    decreases n,
{
    if n > 0 {
        lemma_render_upto_no_repeat(items, (n - 1) as nat, start);
        lemma_render_step_no_repeat(items[n - 1], anchored_reasoning(items, n - 1), render_upto(items, (n - 1) as nat, start));
    }
}

/// No assistant message of the request repeats the text of the assistant
/// message before it.
pub proof fn law_no_repeated_assistant_text(instructions: Seq<char>, items: Seq<ResponseItemView>)
    ensures
        no_repeated_assistant_text(chat_messages(instructions, items)),
{
    let start = start_messages(instructions);
    if instructions.len() > 0 {
        reveal_strlit("assistant");
        assert(start.drop_last() =~= Seq::<ChatMessageView>::empty());
        assert(!is_assistant_text(start[0]));
        assert(last_assistant_text_in(start) == last_assistant_text_in(start.drop_last()));
        assert forall|j: int| 0 <= j < start.len() && #[trigger] is_assistant_text(start[j]) implies last_assistant_text_in(
            start.take(j),
        ) != Some(start[j]->Text_content) by {
            assert(j == 0);
        }
    }
    lemma_render_upto_no_repeat(items, items.len(), start);
}


/// Whether one of the assistant messages of `msgs` carries tool call `call`.
pub open spec fn carries_tool_call(msgs: Seq<ChatMessageView>, call: ChatToolCallView) -> bool {
    exists|i: int, j: int|
        #![trigger msgs[i]->tool_calls[j]]
        0 <= i < msgs.len() && msgs[i] is ToolCalls && 0 <= j < msgs[i]->tool_calls.len() && msgs[i]->tool_calls[j] == call
}

/// The tool call that a call item of the conversation stands for: a local
/// shell call goes by its call id, else by its item id.
pub open spec fn call_of_item(item: ResponseItemView) -> Option<ChatToolCallView> {
    match item {
        ResponseItemView::FunctionCall { name, arguments, call_id } => Some(
            ChatToolCallView::Function { id: call_id, name, arguments },
        ),
        ResponseItemView::LocalShellCall { id, call_id, status, action } => Some(
            ChatToolCallView::LocalShell {
                id: if call_id is Some { call_id.unwrap() } else if id is Some { id.unwrap() } else { Seq::empty() },
                status,
                action,
            },
        ),
        ResponseItemView::CustomToolCall { call_id, name, input } => Some(
            ChatToolCallView::Custom { id: call_id, name, input },
        ),
        _ => None,
    }
}

proof fn lemma_with_tool_call_carries(
    msgs: Seq<ChatMessageView>,
    call: ChatToolCallView,
    reasoning: Option<Seq<char>>,
    other: ChatToolCallView,
)
    ensures
        carries_tool_call(with_tool_call(msgs, call, reasoning), call),
        carries_tool_call(msgs, other) ==> carries_tool_call(with_tool_call(msgs, call, reasoning), other),
{
    let next = with_tool_call(msgs, call, reasoning);
    if msgs.len() > 0 && msgs.last() is ToolCalls {
        let last = msgs.last();
        let n = msgs.len() - 1;
        assert(next[n]->tool_calls[last->tool_calls.len() as int] == call);
        if carries_tool_call(msgs, other) {
            let (i, j) = choose|i: int, j: int|
                #![trigger msgs[i]->tool_calls[j]]
                0 <= i < msgs.len() && msgs[i] is ToolCalls && 0 <= j < msgs[i]->tool_calls.len()
                    && msgs[i]->tool_calls[j] == other;
            if i < n {
                assert(next[i] == msgs[i]);
                assert(next[i]->tool_calls[j] == other);
            } else {
                assert(next[n]->tool_calls[j] == last->tool_calls[j]);
            }
        }
    } else {
        let n = msgs.len() as int;
        assert(next[n]->tool_calls[0] == call);
        if carries_tool_call(msgs, other) {
            let (i, j) = choose|i: int, j: int|
                #![trigger msgs[i]->tool_calls[j]]
                0 <= i < msgs.len() && msgs[i] is ToolCalls && 0 <= j < msgs[i]->tool_calls.len()
                    && msgs[i]->tool_calls[j] == other;
            assert(next[i] == msgs[i]);
            assert(next[i]->tool_calls[j] == other);
        }
    }
}

proof fn lemma_push_carries(msgs: Seq<ChatMessageView>, m: ChatMessageView, other: ChatToolCallView)
    ensures
        carries_tool_call(msgs, other) ==> carries_tool_call(msgs.push(m), other),
{
    if carries_tool_call(msgs, other) {
        let (i, j) = choose|i: int, j: int|
            #![trigger msgs[i]->tool_calls[j]]
            0 <= i < msgs.len() && msgs[i] is ToolCalls && 0 <= j < msgs[i]->tool_calls.len()
                && msgs[i]->tool_calls[j] == other;
        assert(msgs.push(m)[i] == msgs[i]);
        assert(msgs.push(m)[i]->tool_calls[j] == other);
    }
}

/// Rendering an item keeps every tool call already rendered, and a call
/// item adds the tool call it stands for.
proof fn lemma_step_carries(item: ResponseItemView, reasoning: Option<Seq<char>>, st: RenderState, other: ChatToolCallView)
    ensures
        carries_tool_call(st.messages, other) ==> carries_tool_call(render_step(item, reasoning, st).messages, other),
        call_of_item(item) matches Some(c) ==> carries_tool_call(render_step(item, reasoning, st).messages, c),
{
    match item {
        ResponseItemView::Message { role, content } => {
            let text = message_text(content);
            if !(role == "assistant"@ && st.last_assistant_text == Some(text)) {
                let message = if role == "assistant"@ {
                    ChatMessageView::Text { role, content: text, reasoning }
                } else if has_image(content) {
                    ChatMessageView::Parts { role, parts: content_parts(content) }
                } else {
                    ChatMessageView::Text { role, content: text, reasoning: None }
                };
                lemma_push_carries(st.messages, message, other);
            }
        },
        ResponseItemView::FunctionCall { name, arguments, call_id } => {
            lemma_with_tool_call_carries(st.messages, call_of_item(item).unwrap(), reasoning, other);
        },
        ResponseItemView::LocalShellCall { id, call_id, status, action } => {
            lemma_with_tool_call_carries(st.messages, call_of_item(item).unwrap(), reasoning, other);
        },
        ResponseItemView::CustomToolCall { call_id, name, input } => {
            lemma_with_tool_call_carries(st.messages, call_of_item(item).unwrap(), reasoning, other);
        },
        ResponseItemView::FunctionCallOutput { call_id, output } => {
            lemma_push_carries(
                st.messages,
                ChatMessageView::ToolResult { tool_call_id: call_id, content: tool_content(output) },
                other,
            );
        },
        ResponseItemView::CustomToolCallOutput { call_id, output } => {
            lemma_push_carries(
                st.messages,
                ChatMessageView::ToolResult { tool_call_id: call_id, content: tool_content(output) },
                other,
            );
        },
        _ => {},
    }
}

proof fn lemma_upto_carries(items: Seq<ResponseItemView>, k: nat, m: nat, start: Seq<ChatMessageView>, call: ChatToolCallView)
    requires
        k <= m <= items.len(),
        carries_tool_call(render_upto(items, k, start).messages, call),
    ensures
        carries_tool_call(render_upto(items, m, start).messages, call),
    decreases m - k,
{
    if m > k {
        lemma_upto_carries(items, k, (m - 1) as nat, start, call);
        lemma_step_carries(
            items[m - 1],
            anchored_reasoning(items, m - 1),
            render_upto(items, (m - 1) as nat, start),
            call,
        );
    }
}

/// Every call of the conversation reaches the request as a tool call of an
/// assistant message, under its call id (a local shell call without one
/// under its item id), so that the tool reply that names the call id
/// answers it.
pub proof fn law_calls_keep_their_call_ids(instructions: Seq<char>, items: Seq<ResponseItemView>, k: int)
    requires
        0 <= k < items.len(),
    ensures
        items[k] matches ResponseItemView::FunctionCall { name, arguments, call_id } ==> carries_tool_call(
            chat_messages(instructions, items),
            ChatToolCallView::Function { id: call_id, name, arguments },
        ),
        items[k] matches ResponseItemView::CustomToolCall { call_id, name, input } ==> carries_tool_call(
            chat_messages(instructions, items),
            ChatToolCallView::Custom { id: call_id, name, input },
        ),
        items[k] matches ResponseItemView::LocalShellCall { call_id: Some(c), status, action, .. } ==> carries_tool_call(
            chat_messages(instructions, items),
            ChatToolCallView::LocalShell { id: c, status, action },
        ),
        items[k] matches ResponseItemView::LocalShellCall { id: Some(i), call_id: None, status, action } ==> carries_tool_call(
            chat_messages(instructions, items),
            ChatToolCallView::LocalShell { id: i, status, action },
        ),
{
    let start = start_messages(instructions);
    if let Some(c) = call_of_item(items[k]) {
        lemma_step_carries(items[k], anchored_reasoning(items, k), render_upto(items, k as nat, start), c);
        assert(render_upto(items, (k + 1) as nat, start) == render_item(items, k, render_upto(items, k as nat, start)));
        lemma_upto_carries(items, (k + 1) as nat, items.len(), start, c);
    }
}

} // verus!
